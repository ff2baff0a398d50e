use vstd::prelude::*;
use vstd::string::*;
use crate::analyzer::{errors_in_tree, has_errors};
use crate::model::{full_view, fulls_view, lemma_fulls_view_take, FullNodeInfo, FullNodeView};
use crate::snapshot::{is_error, lemma_fulls_view_index};
use crate::text::{decimal, push_decimal};

verus! {

/// Status mark of a node without reasons.
pub const PASSED_MARK: &'static str = "\u{e2}\u{153}\u{2026}";

/// Status mark of a node with reasons.
pub const FAILED_MARK: &'static str = "\u{f0}\u{178}\u{2019}\u{a9}";

/// Why a node is reported, comma-separated: dead code first, then a useless
/// prefix.
pub open spec fn reasons_text(n: FullNodeView) -> Seq<char> {
    if n.references == 0 && n.parent_name_prefix {
        "dead code, useless prefix"@
    } else if n.references == 0 {
        "dead code"@
    } else if n.parent_name_prefix {
        "useless prefix"@
    } else {
        Seq::empty()
    }
}

/// Appends the reasons of `n` to `out`.
pub fn push_reasons(out: &mut String, n: &FullNodeInfo)
    ensures
        final(out)@ == old(out)@ + reasons_text(n@),
{
    if n.references == 0 && n.parent_name_prefix {
        out.append("dead code, useless prefix");
    } else if n.references == 0 {
        out.append("dead code");
    } else if n.parent_name_prefix {
        out.append("useless prefix");
    } else {
        assert(out@ =~= out@ + Seq::<char>::empty());
    }
}

/// One line of a report: indentation, status mark, name, position, reasons.
pub open spec fn node_line(n: FullNodeView, pad: Seq<char>) -> Seq<char> {
    pad + "["@ + (if is_error(n) {
        FAILED_MARK@
    } else {
        PASSED_MARK@
    }) + "] "@ + n.name + ":"@ + decimal(n.start_position.row as nat) + ":"@ + decimal(
        n.start_position.column as nat,
    ) + " :: ("@ + reasons_text(n) + ")"@
}

/// The rendering of a node and its shown descendants, one line each, children
/// indented one tab deeper; `None` when the subtree is hidden.
pub open spec fn render_spec(n: FullNodeView, show_all: bool, pad: Seq<char>) -> Option<Seq<char>>
    decreases n,
{
    if !show_all && !errors_in_tree(n) {
        None
    } else {
        Some(node_line(n, pad) + rendered_list(n.children, show_all, pad.push('\t')))
    }
}

/// The renderings of the shown nodes of `s`, each preceded by a line break.
pub open spec fn rendered_list(s: Seq<FullNodeView>, show_all: bool, pad: Seq<char>) -> Seq<char>
    decreases s,
{
    if s.len() == 0 {
        Seq::empty()
    } else {
        rendered_list(s.drop_last(), show_all, pad) + match render_spec(s.last(), show_all, pad) {
            Some(t) => seq!['\n'] + t,
            None => Seq::empty(),
        }
    }
}

pub open spec fn tabs(n: nat) -> Seq<char> {
    Seq::new(n, |i: int| '\t')
}

/// `n` copies of `c`.
pub fn repeated(c: char, n: usize) -> (r: String)
    ensures
        r@ == Seq::new(n as nat, |i: int| c),
{
    let mut r = String::new();
    let mut i: usize = 0;
    while i < n
        invariant
            i <= n,
            r@ =~= Seq::new(i as nat, |k: int| c),
        decreases n - i,
    {
        r.push(c);
        i = i + 1;
    }
    r
}

fn render_list(out: &mut String, nodes: &Vec<FullNodeInfo>, show_all: bool, pad: &String)
    ensures
        final(out)@ == old(out)@ + rendered_list(fulls_view(nodes@), show_all, pad@),
    decreases nodes,
{
    let ghost start = out@;
    let mut i: usize = 0;
    assert(nodes@.take(0) =~= Seq::<FullNodeInfo>::empty());
    assert(out@ =~= start + rendered_list(fulls_view(nodes@.take(0)), show_all, pad@));
    while i < nodes.len()
        invariant
            i <= nodes.len(),
            out@ == start + rendered_list(fulls_view(nodes@.take(i as int)), show_all, pad@),
        decreases nodes.len() - i,
    {
        proof {
            lemma_fulls_view_take(nodes@, i as int);
            let v = fulls_view(nodes@.take(i + 1));
            assert(v.drop_last() == fulls_view(nodes@.take(i as int)));
            assert(v.last() == full_view(nodes@[i as int]));
        }
        match render_with(&nodes[i], show_all, pad) {
            Some(t) => {
                out.push('\n');
                out.append(t.as_str());
                assert(out@ =~= start + rendered_list(
                    fulls_view(nodes@.take(i + 1)),
                    show_all,
                    pad@,
                ));
            },
            None => {
                assert(out@ =~= start + rendered_list(
                    fulls_view(nodes@.take(i + 1)),
                    show_all,
                    pad@,
                ));
            },
        }
        i = i + 1;
    }
    assert(nodes@.take(i as int) =~= nodes@);
}

fn render_with(node: &FullNodeInfo, show_all: bool, pad: &String) -> (r: Option<String>)
    ensures
        match r {
            Some(t) => render_spec(node@, show_all, pad@) == Some(t@),
            None => render_spec(node@, show_all, pad@) is None,
        },
    decreases node,
{
    if !show_all && !has_errors(node) {
        return None;
    }
    let mut out = pad.clone();
    out.append("[");
    if node.references == 0 || node.parent_name_prefix {
        out.append(FAILED_MARK);
    } else {
        out.append(PASSED_MARK);
    }
    out.append("] ");
    out.append(node.name.as_str());
    out.append(":");
    push_decimal(&mut out, node.start_position.row as u64);
    out.append(":");
    push_decimal(&mut out, node.start_position.column as u64);
    out.append(" :: (");
    push_reasons(&mut out, node);
    out.append(")");
    assert(out@ =~= node_line(node@, pad@));
    let mut child_pad = pad.clone();
    child_pad.push('\t');
    render_list(&mut out, &node.children, show_all, &child_pad);
    assert(full_view(*node).children == fulls_view(node.children@));
    Some(out)
}

/// Renders a node and its descendants at indentation `depth`; `None` when
/// passing nodes are hidden (`show_all` unset) and the subtree has no errors.
pub fn render_node(node: &FullNodeInfo, show_all: bool, depth: usize) -> (r: Option<String>)
    ensures
        match r {
            Some(t) => render_spec(node@, show_all, tabs(depth as nat)) == Some(t@),
            None => render_spec(node@, show_all, tabs(depth as nat)) is None,
        },
{
    let pad = repeated('\t', depth);
    assert(pad@ =~= tabs(depth as nat));
    render_with(node, show_all, &pad)
}

/// The report of one file's forest: empty when nothing is shown; otherwise
/// the file path of the first node, the shown subtrees, and a rule of dashes.
pub open spec fn report_spec(nodes: Seq<FullNodeView>, show_all: bool) -> Seq<char> {
    let body = rendered_list(nodes, show_all, Seq::empty());
    if nodes.len() == 0 || body.len() == 0 {
        Seq::empty()
    } else {
        nodes[0].file_path + body + seq!['\n'] + Seq::new(80, |i: int| '-') + seq!['\n']
    }
}

/// Builds the report of one file's forest.
pub fn build_report(nodes: &[FullNodeInfo], show_all: bool) -> (r: String)
    ensures
        r@ == report_spec(fulls_view(nodes@), show_all),
{
    if nodes.len() == 0 {
        assert(fulls_view(nodes@).len() == 0);
        return String::new();
    }
    let mut body = String::new();
    let root_pad = String::new();
    let mut i: usize = 0;
    assert(nodes@.take(0) =~= Seq::<FullNodeInfo>::empty());
    while i < nodes.len()
        invariant
            i <= nodes.len(),
            root_pad@ == Seq::<char>::empty(),
            body@ == rendered_list(fulls_view(nodes@.take(i as int)), show_all, root_pad@),
        decreases nodes.len() - i,
    {
        proof {
            lemma_fulls_view_take(nodes@, i as int);
            let v = fulls_view(nodes@.take(i + 1));
            assert(v.drop_last() == fulls_view(nodes@.take(i as int)));
            assert(v.last() == full_view(nodes@[i as int]));
        }
        match render_with(&nodes[i], show_all, &root_pad) {
            Some(t) => {
                let ghost before = body@;
                body.push('\n');
                body.append(t.as_str());
                assert(body@ =~= before + (seq!['\n'] + t@));
            },
            None => {
                assert(body@ =~= body@ + Seq::<char>::empty());
            },
        }
        i = i + 1;
    }
    assert(nodes@.take(i as int) =~= nodes@);
    if body.unicode_len() == 0 {
        return String::new();
    }
    proof {
        lemma_fulls_view_index(nodes@);
    }
    let mut report = nodes[0].file_path.clone();
    report.append(body.as_str());
    report.push('\n');
    let rule = repeated('-', 80);
    report.append(rule.as_str());
    report.push('\n');
    assert(report@ =~= report_spec(fulls_view(nodes@), show_all));
    report
}

} // verus!
