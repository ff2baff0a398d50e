use vstd::prelude::*;
use vstd::string::*;
use crate::model::{
    full_view, fulls_view, lemma_fulls_view_push, lemma_fulls_view_take, FullNodeInfo,
    FullNodeView,
};
use crate::report::{push_reasons, reasons_text};
use crate::text::{decimal, push_decimal};

verus! {

impl FullNodeInfo {
    /// A copy of the whole tree.
    pub fn deep_clone(&self) -> (r: FullNodeInfo)
        ensures
            r@ == self@,
        decreases self,
    {
        let mut children: Vec<FullNodeInfo> = Vec::new();
        let mut i: usize = 0;
        while i < self.children.len()
            invariant
                i <= self.children.len(),
                fulls_view(children@) == fulls_view(self.children@.take(i as int)),
            decreases self.children.len() - i,
        {
            let c = self.children[i].deep_clone();
            proof {
                lemma_fulls_view_push(children@, c);
                lemma_fulls_view_take(self.children@, i as int);
            }
            children.push(c);
            i = i + 1;
        }
        assert(self.children@.take(i as int) =~= self.children@);
        FullNodeInfo {
            node_type: self.node_type.clone(),
            name: self.name.clone(),
            start_position: self.start_position,
            file_path: self.file_path.clone(),
            references: self.references,
            parent_name_prefix: self.parent_name_prefix,
            children,
        }
    }
}

/// A node is recorded in a snapshot when it is dead or has a useless prefix.
pub open spec fn is_error(n: FullNodeView) -> bool {
    n.references == 0 || n.parent_name_prefix
}

/// The recorded nodes of a tree, in pre-order, each with its whole subtree.
pub open spec fn errors_of_tree(n: FullNodeView) -> Seq<FullNodeView>
    decreases n,
{
    (if is_error(n) {
        seq![n]
    } else {
        Seq::empty()
    }) + errors_of_forest(n.children)
}

pub open spec fn errors_of_forest(s: Seq<FullNodeView>) -> Seq<FullNodeView>
    decreases s,
{
    if s.len() == 0 {
        Seq::empty()
    } else {
        errors_of_forest(s.drop_last()) + errors_of_tree(s.last())
    }
}

fn push_errors(out: &mut Vec<FullNodeInfo>, node: &FullNodeInfo)
    ensures
        fulls_view(final(out)@) == fulls_view(old(out)@) + errors_of_tree(node@),
    decreases node,
{
    let ghost start = fulls_view(out@);
    if node.references == 0 || node.parent_name_prefix {
        let c = node.deep_clone();
        proof {
            lemma_fulls_view_push(out@, c);
        }
        out.push(c);
    }
    let ghost mid = fulls_view(out@);
    let mut i: usize = 0;
    assert(node.children@.take(0) =~= Seq::<FullNodeInfo>::empty());
    assert(mid =~= mid + errors_of_forest(fulls_view(node.children@.take(0))));
    while i < node.children.len()
        invariant
            i <= node.children.len(),
            fulls_view(out@) == mid + errors_of_forest(fulls_view(node.children@.take(i as int))),
        decreases node.children.len() - i,
    {
        push_errors(out, &node.children[i]);
        proof {
            lemma_fulls_view_take(node.children@, i as int);
            let v = fulls_view(node.children@.take(i + 1));
            assert(v.drop_last() == fulls_view(node.children@.take(i as int)));
        }
        i = i + 1;
        assert(fulls_view(out@) =~= mid + errors_of_forest(
            fulls_view(node.children@.take(i as int)),
        ));
    }
    assert(node.children@.take(i as int) =~= node.children@);
    assert(full_view(*node).children == fulls_view(node.children@));
    assert(fulls_view(out@) =~= start + errors_of_tree(node@));
}

/// The nodes of `node`'s tree that are dead or have a useless prefix, in
/// pre-order.
pub fn collect_errors(node: &FullNodeInfo) -> (r: Vec<FullNodeInfo>)
    ensures
        fulls_view(r@) == errors_of_tree(node@),
{
    let mut r: Vec<FullNodeInfo> = Vec::new();
    push_errors(&mut r, node);
    assert(fulls_view(r@) =~= errors_of_tree(node@));
    r
}

/// The recorded nodes of a whole forest: what a snapshot holds.
pub fn snapshot_errors(nodes: &Vec<FullNodeInfo>) -> (r: Vec<FullNodeInfo>)
    ensures
        fulls_view(r@) == errors_of_forest(fulls_view(nodes@)),
{
    let mut r: Vec<FullNodeInfo> = Vec::new();
    let mut i: usize = 0;
    assert(nodes@.take(0) =~= Seq::<FullNodeInfo>::empty());
    while i < nodes.len()
        invariant
            i <= nodes.len(),
            fulls_view(r@) == errors_of_forest(fulls_view(nodes@.take(i as int))),
        decreases nodes.len() - i,
    {
        push_errors(&mut r, &nodes[i]);
        proof {
            lemma_fulls_view_take(nodes@, i as int);
            let v = fulls_view(nodes@.take(i + 1));
            assert(v.drop_last() == fulls_view(nodes@.take(i as int)));
        }
        i = i + 1;
    }
    assert(nodes@.take(i as int) =~= nodes@);
    r
}

/// Snapshot entries are matched by file, name and position alone.
pub open spec fn same_entry(a: FullNodeView, b: FullNodeView) -> bool {
    a.file_path == b.file_path && a.name == b.name && a.start_position == b.start_position
}

pub open spec fn known(old: Seq<FullNodeView>, e: FullNodeView) -> bool {
    exists|k: int| 0 <= k < old.len() && same_entry(#[trigger] old[k], e)
}

/// The entries of `current` that no entry of `old` matches, in order.
pub open spec fn fresh_errors(current: Seq<FullNodeView>, old: Seq<FullNodeView>) -> Seq<
    FullNodeView,
>
    decreases current.len(),
{
    if current.len() == 0 {
        Seq::empty()
    } else {
        fresh_errors(current.drop_last(), old) + (if known(old, current.last()) {
            Seq::empty()
        } else {
            seq![current.last()]
        })
    }
}

fn entry_known(old: &Vec<FullNodeInfo>, e: &FullNodeInfo) -> (r: bool)
    ensures
        r == known(fulls_view(old@), e@),
{
    let mut k: usize = 0;
    proof {
        lemma_fulls_view_index(old@);
    }
    while k < old.len()
        invariant
            k <= old.len(),
            fulls_view(old@).len() == old@.len(),
            forall|q: int| 0 <= q < old@.len() ==> #[trigger] fulls_view(old@)[q] == full_view(old@[q]),
            forall|q: int| 0 <= q < k ==> !same_entry(#[trigger] fulls_view(old@)[q], e@),
        decreases old.len() - k,
    {
        let o = &old[k];
        if o.file_path == e.file_path && o.name == e.name && o.start_position.row
            == e.start_position.row && o.start_position.column == e.start_position.column {
            assert(same_entry(fulls_view(old@)[k as int], e@));
            return true;
        }
        k = k + 1;
    }
    false
}

pub proof fn lemma_fulls_view_index(s: Seq<FullNodeInfo>)
    ensures
        fulls_view(s).len() == s.len(),
        forall|q: int| 0 <= q < s.len() ==> #[trigger] fulls_view(s)[q] == full_view(s[q]),
    decreases s.len(),
{
    if s.len() > 0 {
        lemma_fulls_view_index(s.drop_last());
        assert forall|q: int| 0 <= q < s.len() implies #[trigger] fulls_view(s)[q] == full_view(
            s[q],
        ) by {
            if q < s.len() - 1 {
                assert(s.drop_last()[q] == s[q]);
            }
        }
    }
}

/// The recorded nodes of `nodes` that no entry of a stored snapshot matches.
pub fn compare_with_snapshot(nodes: &Vec<FullNodeInfo>, old_errors: &Vec<FullNodeInfo>) -> (r: Vec<
    FullNodeInfo,
>)
    ensures
        fulls_view(r@) == fresh_errors(
            errors_of_forest(fulls_view(nodes@)),
            fulls_view(old_errors@),
        ),
{
    let current = snapshot_errors(nodes);
    let mut r: Vec<FullNodeInfo> = Vec::new();
    let mut i: usize = 0;
    assert(current@.take(0) =~= Seq::<FullNodeInfo>::empty());
    while i < current.len()
        invariant
            i <= current.len(),
            fulls_view(r@) == fresh_errors(
                fulls_view(current@.take(i as int)),
                fulls_view(old_errors@),
            ),
        decreases current.len() - i,
    {
        proof {
            lemma_fulls_view_take(current@, i as int);
            let v = fulls_view(current@.take(i + 1));
            assert(v.drop_last() == fulls_view(current@.take(i as int)));
        }
        if !entry_known(old_errors, &current[i]) {
            let c = current[i].deep_clone();
            proof {
                lemma_fulls_view_push(r@, c);
            }
            r.push(c);
        } else {
            assert(fulls_view(r@) =~= fulls_view(r@) + Seq::<FullNodeView>::empty());
        }
        i = i + 1;
    }
    assert(current@.take(i as int) =~= current@);
    r
}

/// Comparing a snapshot against itself finds no new errors.
pub proof fn lemma_self_comparison_is_empty(s: Seq<FullNodeView>)
    ensures
        fresh_errors(s, s).len() == 0,
{
    lemma_known_entries_are_not_fresh(s, s);
}

proof fn lemma_known_entries_are_not_fresh(current: Seq<FullNodeView>, old: Seq<FullNodeView>)
    requires
        forall|i: int| 0 <= i < current.len() ==> known(old, #[trigger] current[i]),
    ensures
        fresh_errors(current, old).len() == 0,
    decreases current.len(),
{
    if current.len() > 0 {
        assert(known(old, current[current.len() - 1]));
        lemma_known_entries_are_not_fresh(current.drop_last(), old);
    }
}

/// One line naming a new error: `path:row:column :: name (reasons)`.
pub open spec fn error_line(e: FullNodeView) -> Seq<char> {
    e.file_path + ":"@ + decimal(e.start_position.row as nat) + ":"@ + decimal(
        e.start_position.column as nat,
    ) + " :: "@ + e.name + " ("@ + reasons_text(e) + ")"@
}

/// Formats a snapshot entry for the list of new errors.
pub fn format_error(error: &FullNodeInfo) -> (r: String)
    ensures
        r@ == error_line(error@),
{
    let mut out = error.file_path.clone();
    out.append(":");
    push_decimal(&mut out, error.start_position.row as u64);
    out.append(":");
    push_decimal(&mut out, error.start_position.column as u64);
    out.append(" :: ");
    out.append(error.name.as_str());
    out.append(" (");
    push_reasons(&mut out, error);
    out.append(")");
    assert(out@ =~= error_line(error@));
    out
}

} // verus!
