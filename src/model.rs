use vstd::prelude::*;

verus! {

/// A zero-based (row, column) position in a source file.
#[derive(Clone, Copy, Debug, PartialEq, Eq)]
pub struct Point {
    pub row: usize,
    pub column: usize,
}

/// One node of the declaration-selection tree: which syntax kinds to match,
/// where the declared name comes from, and what to look for beneath a match.
#[derive(Debug)]
pub struct NodeTarget {
    pub node_type: String,
    pub ref_type: Option<String>,
    pub children: Vec<NodeTarget>,
}

/// A declaration found in a syntax tree.
#[derive(Debug)]
pub struct NodeInfo {
    pub node_type: String,
    pub name: String,
    pub start_position: Point,
    pub children: Vec<NodeInfo>,
}

/// A declaration annotated with its reference count and naming smell.
#[derive(Debug)]
pub struct FullNodeInfo {
    pub node_type: String,
    pub name: String,
    pub start_position: Point,
    pub file_path: String,
    pub references: usize,
    pub parent_name_prefix: bool,
    pub children: Vec<FullNodeInfo>,
}

/// Mathematical value of a `NodeInfo` tree.
pub struct NodeInfoView {
    pub node_type: Seq<char>,
    pub name: Seq<char>,
    pub start_position: Point,
    pub children: Seq<NodeInfoView>,
}

/// Mathematical value of a `FullNodeInfo` tree.
pub struct FullNodeView {
    pub node_type: Seq<char>,
    pub name: Seq<char>,
    pub start_position: Point,
    pub file_path: Seq<char>,
    pub references: nat,
    pub parent_name_prefix: bool,
    pub children: Seq<FullNodeView>,
}

pub open spec fn info_view(n: NodeInfo) -> NodeInfoView
    decreases n,
{
    NodeInfoView {
        node_type: n.node_type@,
        name: n.name@,
        start_position: n.start_position,
        children: infos_view(n.children@),
    }
}

pub open spec fn infos_view(s: Seq<NodeInfo>) -> Seq<NodeInfoView>
    decreases s,
{
    if s.len() == 0 {
        Seq::empty()
    } else {
        infos_view(s.drop_last()).push(info_view(s.last()))
    }
}

pub open spec fn full_view(n: FullNodeInfo) -> FullNodeView
    decreases n,
{
    FullNodeView {
        node_type: n.node_type@,
        name: n.name@,
        start_position: n.start_position,
        file_path: n.file_path@,
        references: n.references as nat,
        parent_name_prefix: n.parent_name_prefix,
        children: fulls_view(n.children@),
    }
}

pub open spec fn fulls_view(s: Seq<FullNodeInfo>) -> Seq<FullNodeView>
    decreases s,
{
    if s.len() == 0 {
        Seq::empty()
    } else {
        fulls_view(s.drop_last()).push(full_view(s.last()))
    }
}

impl View for NodeInfo {
    type V = NodeInfoView;

    open spec fn view(&self) -> NodeInfoView {
        info_view(*self)
    }
}

impl View for FullNodeInfo {
    type V = FullNodeView;

    open spec fn view(&self) -> FullNodeView {
        full_view(*self)
    }
}

pub proof fn lemma_infos_view_push(s: Seq<NodeInfo>, x: NodeInfo)
    ensures
        infos_view(s.push(x)) == infos_view(s).push(info_view(x)),
{
    assert(s.push(x).drop_last() =~= s);
}

pub proof fn lemma_infos_view_take(s: Seq<NodeInfo>, i: int)
    requires
        0 <= i < s.len(),
    ensures
        infos_view(s.take(i + 1)) == infos_view(s.take(i)).push(info_view(s[i])),
{
    assert(s.take(i + 1) =~= s.take(i).push(s[i]));
    lemma_infos_view_push(s.take(i), s[i]);
}

pub proof fn lemma_fulls_view_push(s: Seq<FullNodeInfo>, x: FullNodeInfo)
    ensures
        fulls_view(s.push(x)) == fulls_view(s).push(full_view(x)),
{
    assert(s.push(x).drop_last() =~= s);
}

pub proof fn lemma_fulls_view_take(s: Seq<FullNodeInfo>, i: int)
    requires
        0 <= i < s.len(),
    ensures
        fulls_view(s.take(i + 1)) == fulls_view(s.take(i)).push(full_view(s[i])),
{
    assert(s.take(i + 1) =~= s.take(i).push(s[i]));
    lemma_fulls_view_push(s.take(i), s[i]);
}

pub proof fn lemma_infos_view_prefix(s: Seq<NodeInfo>, k: int)
    requires
        0 <= k <= s.len(),
    ensures
        infos_view(s).len() == s.len(),
        infos_view(s.take(k)) == infos_view(s).take(k),
    decreases s.len(),
{
    if s.len() == 0 {
        assert(s.take(k) =~= s);
        assert(infos_view(s).take(k) =~= infos_view(s));
    } else if k == s.len() {
        lemma_infos_view_prefix(s.drop_last(), k - 1);
        assert(s.take(k) =~= s);
        assert(infos_view(s).take(k) =~= infos_view(s));
    } else {
        lemma_infos_view_prefix(s.drop_last(), k);
        assert(s.take(k) =~= s.drop_last().take(k));
        assert(infos_view(s).take(k) =~= infos_view(s.drop_last()).take(k));
    }
}

} // verus!
