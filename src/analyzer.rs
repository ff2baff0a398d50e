use vstd::prelude::*;
use crate::model::{
    full_view, fulls_view, info_view, infos_view, lemma_fulls_view_push, lemma_fulls_view_take,
    lemma_infos_view_prefix, lemma_infos_view_take, FullNodeInfo, FullNodeView, NodeInfo,
    NodeInfoView, NodeTarget, Point,
};
use crate::text::{is_prefix_ignoring_case, lower_of, starts_with};
use crate::tree::{build_spec, find_spec, gather, SyntaxNode};

verus! {

/// Start positions of a tree's nodes in pre-order: the order in which
/// reference counts are queried.
pub open spec fn tree_positions(n: NodeInfoView) -> Seq<Point>
    decreases n,
{
    seq![n.start_position] + forest_positions(n.children)
}

pub open spec fn forest_positions(s: Seq<NodeInfoView>) -> Seq<Point>
    decreases s,
{
    if s.len() == 0 {
        Seq::empty()
    } else {
        forest_positions(s.drop_last()) + tree_positions(s.last())
    }
}

/// Reference count excluding the declaration site itself, which the server
/// always reports.
pub open spec fn reference_count(raw: nat) -> nat {
    if raw == 0 {
        0
    } else {
        (raw - 1) as nat
    }
}

/// A name whose lower-cased form begins its parent's lower-cased name.
pub open spec fn useless_prefix(name: Seq<char>, parent: Option<Seq<char>>) -> bool {
    match parent {
        Some(p) => starts_with(lower_of(p), lower_of(name)),
        None => false,
    }
}

/// Enrichment of the tree `n`, whose raw counts start at `counts[at]`.
pub open spec fn enrich_tree(
    path: Seq<char>,
    n: NodeInfoView,
    counts: Seq<usize>,
    at: int,
    parent: Option<Seq<char>>,
) -> FullNodeView
    decreases n,
{
    FullNodeView {
        node_type: n.node_type,
        name: n.name,
        start_position: n.start_position,
        file_path: path,
        references: reference_count(counts[at] as nat),
        parent_name_prefix: useless_prefix(n.name, parent),
        children: enrich_forest(path, n.children, counts, at + 1, Some(n.name)),
    }
}

/// Enrichment of the forest `s`, whose raw counts, in pre-order, start at
/// `counts[at]`.
pub open spec fn enrich_forest(
    path: Seq<char>,
    s: Seq<NodeInfoView>,
    counts: Seq<usize>,
    at: int,
    parent: Option<Seq<char>>,
) -> Seq<FullNodeView>
    decreases s,
{
    if s.len() == 0 {
        Seq::empty()
    } else {
        let front = s.drop_last();
        enrich_forest(path, front, counts, at, parent).push(
            enrich_tree(path, s.last(), counts, at + forest_positions(front).len(), parent),
        )
    }
}

pub open spec fn opt_view(p: Option<&String>) -> Option<Seq<char>> {
    match p {
        Some(s) => Some(s@),
        None => None,
    }
}

proof fn lemma_positions_prefix(s: Seq<NodeInfoView>, k: int)
    requires
        0 <= k <= s.len(),
    ensures
        forest_positions(s.take(k)).len() <= forest_positions(s).len(),
    decreases s.len() - k,
{
    if k < s.len() {
        lemma_positions_prefix(s, k + 1);
        assert(s.take(k + 1).drop_last() =~= s.take(k));
    } else {
        assert(s.take(k) =~= s);
    }
}

fn push_positions(out: &mut Vec<Point>, nodes: &Vec<NodeInfo>)
    ensures
        final(out)@ == old(out)@ + forest_positions(infos_view(nodes@)),
    decreases nodes,
{
    let ghost start = out@;
    let mut i: usize = 0;
    assert(nodes@.take(0) =~= Seq::<NodeInfo>::empty());
    assert(out@ =~= start + forest_positions(infos_view(nodes@.take(0))));
    while i < nodes.len()
        invariant
            i <= nodes.len(),
            out@ == start + forest_positions(infos_view(nodes@.take(i as int))),
        decreases nodes.len() - i,
    {
        let n = &nodes[i];
        out.push(n.start_position);
        push_positions(out, &n.children);
        proof {
            lemma_infos_view_take(nodes@, i as int);
            let v = infos_view(nodes@.take(i + 1));
            assert(v.drop_last() == infos_view(nodes@.take(i as int)));
            assert(v.last() == info_view(*n));
            assert(info_view(*n).children == infos_view(n.children@));
            assert(tree_positions(info_view(*n)) == seq![n.start_position] + forest_positions(
                infos_view(n.children@),
            ));
            assert(forest_positions(v) == forest_positions(infos_view(nodes@.take(i as int)))
                + tree_positions(info_view(*n)));
        }
        i = i + 1;
        assert(out@ =~= start + forest_positions(infos_view(nodes@.take(i as int))));
    }
    assert(nodes@.take(i as int) =~= nodes@);
}

/// The positions whose reference counts enrichment needs, in the order it
/// consumes them: document pre-order over the matched forest.
pub fn query_positions(nodes: &Vec<NodeInfo>) -> (r: Vec<Point>)
    ensures
        r@ == forest_positions(infos_view(nodes@)),
{
    let mut r: Vec<Point> = Vec::new();
    push_positions(&mut r, nodes);
    assert(r@ =~= forest_positions(infos_view(nodes@)));
    r
}

fn enrich_list(
    path: &String,
    nodes: &Vec<NodeInfo>,
    counts: &Vec<usize>,
    at: usize,
    parent: Option<&String>,
) -> (r: (Vec<FullNodeInfo>, usize))
    requires
        at + forest_positions(infos_view(nodes@)).len() <= counts.len(),
    ensures
        r.1 == at + forest_positions(infos_view(nodes@)).len(),
        fulls_view(r.0@) == enrich_forest(
            path@,
            infos_view(nodes@),
            counts@,
            at as int,
            opt_view(parent),
        ),
    decreases nodes,
{
    let mut out: Vec<FullNodeInfo> = Vec::new();
    let mut pos: usize = at;
    let mut i: usize = 0;
    assert(nodes@.take(0) =~= Seq::<NodeInfo>::empty());
    while i < nodes.len()
        invariant
            i <= nodes.len(),
            at + forest_positions(infos_view(nodes@)).len() <= counts.len(),
            pos == at + forest_positions(infos_view(nodes@.take(i as int))).len(),
            fulls_view(out@) == enrich_forest(
                path@,
                infos_view(nodes@.take(i as int)),
                counts@,
                at as int,
                opt_view(parent),
            ),
        decreases nodes.len() - i,
    {
        let n = &nodes[i];
        let ghost front = infos_view(nodes@.take(i as int));
        proof {
            lemma_infos_view_take(nodes@, i as int);
            let v = infos_view(nodes@.take(i + 1));
            assert(v.drop_last() == front);
            assert(v.last() == info_view(*n));
            assert(info_view(*n).children == infos_view(n.children@));
            assert(tree_positions(info_view(*n)) == seq![n.start_position] + forest_positions(
                infos_view(n.children@),
            ));
            assert(forest_positions(v) == forest_positions(front) + tree_positions(info_view(*n)));
            lemma_infos_view_prefix(nodes@, i + 1);
            lemma_positions_prefix(infos_view(nodes@), i + 1);
        }
        let references = references_excluding_declaration(counts[pos]);
        let (children, next) = enrich_list(
            path,
            &n.children,
            counts,
            pos + 1,
            Some(&n.name),
        );
        let parent_name_prefix = match parent {
            Some(p) => is_prefix_ignoring_case(n.name.as_str(), p.as_str()),
            None => false,
        };
        let ghost before = out@;
        out.push(
            FullNodeInfo {
                node_type: n.node_type.clone(),
                name: n.name.clone(),
                start_position: n.start_position,
                file_path: path.clone(),
                references,
                parent_name_prefix,
                children,
            },
        );
        proof {
            lemma_fulls_view_push(before, out@.last());
            assert(out@ =~= before.push(out@.last()));
            assert(full_view(out@.last()) == enrich_tree(
                path@,
                info_view(*n),
                counts@,
                pos as int,
                opt_view(parent),
            ));
            let v = infos_view(nodes@.take(i + 1));
            assert(enrich_forest(path@, v, counts@, at as int, opt_view(parent)) == enrich_forest(
                path@,
                front,
                counts@,
                at as int,
                opt_view(parent),
            ).push(enrich_tree(path@, info_view(*n), counts@, pos as int, opt_view(parent))));
        }
        pos = next;
        i = i + 1;
    }
    assert(nodes@.take(i as int) =~= nodes@);
    (out, pos)
}

/// The reference count of a declaration whose server reported `raw`
/// locations, the declaration site among them; never below zero.
pub fn references_excluding_declaration(raw: usize) -> (r: usize)
    ensures
        r as nat == reference_count(raw as nat),
        raw == 0 ==> r == 0,
        raw > 0 ==> r == raw - 1,
{
    raw.saturating_sub(1)
}

/// Annotates the matched forest of the file at `file_path` with reference
/// counts and naming smells. `counts` holds the raw server counts for
/// `query_positions(nodes)`, in that order; with any other number of counts
/// the result is `None`.
pub fn enrich_nodes(file_path: &String, nodes: &Vec<NodeInfo>, counts: &Vec<usize>) -> (r: Option<
    Vec<FullNodeInfo>,
>)
    ensures
        r is Some <==> counts.len() == forest_positions(infos_view(nodes@)).len(),
        r matches Some(v) ==> fulls_view(v@) == enrich_forest(
            file_path@,
            infos_view(nodes@),
            counts@,
            0,
            None,
        ),
{
    let positions = query_positions(nodes);
    if positions.len() != counts.len() {
        return None;
    }
    let (out, _) = enrich_list(file_path, nodes, counts, 0, None);
    Some(out)
}

pub open spec fn dead_in_tree(n: FullNodeView) -> nat
    decreases n,
{
    (if n.references == 0 {
        1nat
    } else {
        0nat
    }) + dead_in_forest(n.children)
}

/// Number of dead declarations in a forest, descendants included.
pub open spec fn dead_in_forest(s: Seq<FullNodeView>) -> nat
    decreases s,
{
    if s.len() == 0 {
        0
    } else {
        dead_in_forest(s.drop_last()) + dead_in_tree(s.last())
    }
}

pub open spec fn capped(n: nat) -> int {
    if n > usize::MAX {
        usize::MAX as int
    } else {
        n as int
    }
}

fn count_dead_list(nodes: &Vec<FullNodeInfo>) -> (r: usize)
    ensures
        r as int == capped(dead_in_forest(fulls_view(nodes@))),
    decreases nodes,
{
    let mut total: usize = 0;
    let mut i: usize = 0;
    assert(nodes@.take(0) =~= Seq::<FullNodeInfo>::empty());
    while i < nodes.len()
        invariant
            i <= nodes.len(),
            total as int == capped(dead_in_forest(fulls_view(nodes@.take(i as int)))),
        decreases nodes.len() - i,
    {
        let n = &nodes[i];
        total = total.saturating_add(count_dead_tree(n, count_dead_list(&n.children)));
        proof {
            lemma_fulls_view_take(nodes@, i as int);
            let v = fulls_view(nodes@.take(i + 1));
            assert(v.drop_last() == fulls_view(nodes@.take(i as int)));
            assert(v.last() == full_view(*n));
        }
        i = i + 1;
    }
    assert(nodes@.take(i as int) =~= nodes@);
    total
}

fn count_dead_tree(n: &FullNodeInfo, below: usize) -> (r: usize)
    requires
        below as int == capped(dead_in_forest(fulls_view(n.children@))),
    ensures
        r as int == capped(dead_in_tree(n@)),
{
    let current: usize = if n.references == 0 {
        1
    } else {
        0
    };
    assert(full_view(*n).children == fulls_view(n.children@));
    current.saturating_add(below)
}

/// Number of dead declarations over a forest and all descendants (capped at
/// `usize::MAX`, which no forest in memory reaches).
pub fn count_dead_entities(nodes: &[FullNodeInfo]) -> (r: usize)
    ensures
        r as int == capped(dead_in_forest(fulls_view(nodes@))),
{
    let mut total: usize = 0;
    let mut i: usize = 0;
    assert(nodes@.take(0) =~= Seq::<FullNodeInfo>::empty());
    while i < nodes.len()
        invariant
            i <= nodes.len(),
            total as int == capped(dead_in_forest(fulls_view(nodes@.take(i as int)))),
        decreases nodes.len() - i,
    {
        let n = &nodes[i];
        total = total.saturating_add(count_dead_tree(n, count_dead_list(&n.children)));
        proof {
            lemma_fulls_view_take(nodes@, i as int);
            let v = fulls_view(nodes@.take(i + 1));
            assert(v.drop_last() == fulls_view(nodes@.take(i as int)));
            assert(v.last() == full_view(*n));
        }
        i = i + 1;
    }
    assert(nodes@.take(i as int) =~= nodes@);
    total
}

pub open spec fn errors_in_tree(n: FullNodeView) -> bool
    decreases n,
{
    n.references == 0 || n.parent_name_prefix || errors_in_forest(n.children)
}

/// Some node of the forest, or a descendant, is dead or has a useless prefix.
pub open spec fn errors_in_forest(s: Seq<FullNodeView>) -> bool
    decreases s,
{
    s.len() > 0 && (errors_in_forest(s.drop_last()) || errors_in_tree(s.last()))
}

/// Whether the node is dead, has a useless prefix, or has a descendant that
/// has errors.
pub fn has_errors(node: &FullNodeInfo) -> (r: bool)
    ensures
        r == errors_in_tree(node@),
    decreases node,
{
    if node.references == 0 || node.parent_name_prefix {
        return true;
    }
    let mut i: usize = 0;
    assert(node.children@.take(0) =~= Seq::<FullNodeInfo>::empty());
    while i < node.children.len()
        invariant
            i <= node.children.len(),
            !errors_in_forest(fulls_view(node.children@.take(i as int))),
        decreases node.children.len() - i,
    {
        proof {
            lemma_fulls_view_take(node.children@, i as int);
            let v = fulls_view(node.children@.take(i + 1));
            assert(v.drop_last() == fulls_view(node.children@.take(i as int)));
            assert(v.last() == full_view(node.children@[i as int]));
        }
        if has_errors(&node.children[i]) {
            proof {
                lemma_errors_in_prefix(node.children@, i + 1);
            }
            return true;
        }
        i = i + 1;
    }
    assert(node.children@.take(i as int) =~= node.children@);
    false
}

proof fn lemma_errors_in_prefix(s: Seq<FullNodeInfo>, k: int)
    requires
        0 <= k <= s.len(),
        errors_in_forest(fulls_view(s.take(k))),
    ensures
        errors_in_forest(fulls_view(s)),
    decreases s.len() - k,
{
    if k < s.len() {
        lemma_fulls_view_take(s, k);
        assert(fulls_view(s.take(k + 1)).drop_last() == fulls_view(s.take(k)));
        lemma_errors_in_prefix(s, k + 1);
    } else {
        assert(s.take(k) =~= s);
    }
}

proof fn lemma_enrich_forest_index(
    path: Seq<char>,
    s: Seq<NodeInfoView>,
    counts: Seq<usize>,
    at: int,
    parent: Option<Seq<char>>,
)
    ensures
        enrich_forest(path, s, counts, at, parent).len() == s.len(),
        forall|k: int|
            0 <= k < s.len() ==> #[trigger] enrich_forest(path, s, counts, at, parent)[k]
                == enrich_tree(path, s[k], counts, at + forest_positions(s.take(k)).len(), parent),
    decreases s.len(),
{
    if s.len() > 0 {
        let front = s.drop_last();
        lemma_enrich_forest_index(path, front, counts, at, parent);
        assert forall|k: int| 0 <= k < s.len() implies #[trigger] enrich_forest(
            path,
            s,
            counts,
            at,
            parent,
        )[k] == enrich_tree(path, s[k], counts, at + forest_positions(s.take(k)).len(), parent) by {
            if k < s.len() - 1 {
                assert(front.take(k) =~= s.take(k));
            } else {
                assert(s.take(k) =~= front);
            }
        }
    }
}

/// A declaration with no enclosing declaration never has a useless prefix:
/// every top-level node of an enriched forest has the flag unset.
pub proof fn lemma_roots_have_no_useless_prefix(
    path: Seq<char>,
    s: Seq<NodeInfoView>,
    counts: Seq<usize>,
    at: int,
)
    ensures
        forall|k: int|
            0 <= k < enrich_forest(path, s, counts, at, None).len()
                ==> !(#[trigger] enrich_forest(path, s, counts, at, None)[k]).parent_name_prefix,
{
    lemma_enrich_forest_index(path, s, counts, at, None);
}

proof fn lemma_gather_leaves(
    nodes: Seq<SyntaxNode>,
    from: int,
    j: int,
    m: int,
    targets: Seq<NodeTarget>,
)
    requires
        forall|q: int| 0 <= q < targets.len() ==> (#[trigger] targets[q]).children.len() == 0,
    ensures
        forall|k: int|
            0 <= k < gather(nodes, from, j, m, targets).len() ==> (#[trigger] gather(
                nodes,
                from,
                j,
                m,
                targets,
            )[k]).children.len() == 0,
    decreases j - from, m,
{
    if m <= 0 {
        if j > from {
            lemma_gather_leaves(nodes, from, j - 1, targets.len() as int, targets);
            assert(gather(nodes, from, j, m, targets) == gather(
                nodes,
                from,
                j - 1,
                targets.len() as int,
                targets,
            ));
        } else {
            assert(gather(nodes, from, j, m, targets).len() == 0);
        }
    } else if m > targets.len() {
        assert(gather(nodes, from, j, m, targets).len() == 0);
    } else {
        lemma_gather_leaves(nodes, from, j, m - 1, targets);
        let t = targets[m - 1];
        assert(t.children.len() == 0);
        let prev = gather(nodes, from, j, m - 1, targets);
        let here = if nodes[j].kind@ == t.node_type@ {
            match build_spec(nodes, j, t) {
                Some(v) => seq![v],
                None => Seq::empty(),
            }
        } else {
            Seq::empty()
        };
        assert(gather(nodes, from, j, m, targets) == prev + here);
        assert forall|k: int| 0 <= k < here.len() implies (#[trigger] here[k]).children.len()
            == 0 by {
            match build_spec(nodes, j, t) {
                Some(v) => {
                    assert(v.children.len() == 0);
                },
                None => {},
            }
        }
        assert forall|k: int| 0 <= k < (prev + here).len() implies (#[trigger] (prev
            + here)[k]).children.len() == 0 by {
            if k >= prev.len() {
                assert((prev + here)[k] == here[k - prev.len()]);
            } else {
                assert((prev + here)[k] == prev[k]);
            }
        }
    }
}

/// With selection targets that have no children, every enriched declaration
/// has no children either.
pub proof fn lemma_flat_targets_give_leaves(
    nodes: Seq<SyntaxNode>,
    targets: Seq<NodeTarget>,
    path: Seq<char>,
    counts: Seq<usize>,
)
    requires
        forall|q: int| 0 <= q < targets.len() ==> (#[trigger] targets[q]).children.len() == 0,
    ensures
        forall|k: int|
            0 <= k < enrich_forest(path, find_spec(nodes, targets), counts, 0, None).len() ==> (
            #[trigger] enrich_forest(path, find_spec(nodes, targets), counts, 0, None)[k]).children.len()
                == 0,
{
    let found = find_spec(nodes, targets);
    lemma_gather_leaves(nodes, 0, nodes.len() as int, 0, targets);
    lemma_enrich_forest_index(path, found, counts, 0, None);
    assert forall|k: int|
        0 <= k < enrich_forest(path, found, counts, 0, None).len() implies (
    #[trigger] enrich_forest(path, found, counts, 0, None)[k]).children.len() == 0 by {
        assert(found[k].children.len() == 0);
        assert(found[k].children =~= Seq::<NodeInfoView>::empty());
    }
}

/// A node and all its descendants, in pre-order.
pub open spec fn flatten_tree(n: FullNodeView) -> Seq<FullNodeView>
    decreases n,
{
    seq![n] + flatten_forest(n.children)
}

/// All nodes of a forest, descendants included, in pre-order.
pub open spec fn flatten_forest(s: Seq<FullNodeView>) -> Seq<FullNodeView>
    decreases s,
{
    if s.len() == 0 {
        Seq::empty()
    } else {
        flatten_forest(s.drop_last()) + flatten_tree(s.last())
    }
}

pub open spec fn dead_node() -> spec_fn(FullNodeView) -> bool {
    |n: FullNodeView| n.references == 0
}

proof fn lemma_dead_tree_counts_dead_nodes(n: FullNodeView)
    ensures
        dead_in_tree(n) == flatten_tree(n).filter(dead_node()).len(),
    decreases n,
{
    lemma_dead_forest_counts_dead_nodes(n.children);
    let one = seq![n];
    Seq::filter_distributes_over_add(one, flatten_forest(n.children), dead_node());
    reveal_with_fuel(Seq::filter, 2);
    assert(one.drop_last() =~= Seq::<FullNodeView>::empty());
}

/// The dead count of a forest is the number of its nodes, descendants
/// included, with no references; an empty forest has none.
pub proof fn lemma_dead_forest_counts_dead_nodes(s: Seq<FullNodeView>)
    ensures
        dead_in_forest(s) == flatten_forest(s).filter(dead_node()).len(),
        s.len() == 0 ==> dead_in_forest(s) == 0,
    decreases s,
{
    if s.len() > 0 {
        lemma_dead_forest_counts_dead_nodes(s.drop_last());
        lemma_dead_tree_counts_dead_nodes(s.last());
        Seq::filter_distributes_over_add(
            flatten_forest(s.drop_last()),
            flatten_tree(s.last()),
            dead_node(),
        );
    }
}

} // verus!
