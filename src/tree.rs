use vstd::prelude::*;
use crate::config::Grammar;
use crate::model::{infos_view, NodeInfo, NodeInfoView, NodeTarget, Point};
use crate::text::{trim_text, trimmed};

verus! {

/// One node of a parsed syntax tree. A tree is held as the list of its
/// nodes in document pre-order, each with its depth below the root.
#[derive(Debug)]
pub struct SyntaxNode {
    pub kind: String,
    pub text: String,
    pub depth: usize,
    pub start_position: Point,
}

/// A parsed syntax tree: its nodes in document pre-order, the root first.
#[derive(Debug)]
pub struct SyntaxTree {
    pub nodes: Vec<SyntaxNode>,
}

pub open spec fn scan_end(nodes: Seq<SyntaxNode>, i: int, k: int) -> int
    decreases nodes.len() - k,
{
    if k >= nodes.len() || nodes[k].depth <= nodes[i].depth {
        k
    } else {
        scan_end(nodes, i, k + 1)
    }
}

/// One past the last node of the subtree rooted at `i`: the nodes strictly
/// between `i` and it are the strict descendants of `i`.
pub open spec fn subtree_end(nodes: Seq<SyntaxNode>, i: int) -> int {
    scan_end(nodes, i, i + 1)
}

/// The first position in `[k, end)` whose node has kind `kind`.
pub open spec fn first_of_kind(nodes: Seq<SyntaxNode>, kind: Seq<char>, k: int, end: int) -> Option<
    int,
>
    decreases end - k,
{
    if k >= end {
        None
    } else if nodes[k].kind@ == kind {
        Some(k)
    } else {
        first_of_kind(nodes, kind, k + 1, end)
    }
}

/// The node whose text names a match of `t` at `i`: the node itself, or the
/// first node of the reference kind in pre-order within its subtree.
pub open spec fn name_index(nodes: Seq<SyntaxNode>, i: int, t: NodeTarget) -> Option<int> {
    match t.ref_type {
        Some(r) => first_of_kind(nodes, r@, i, subtree_end(nodes, i)),
        None => Some(i),
    }
}

/// The match that target `t` makes at node `i`, whose kind is `t`'s.
pub open spec fn build_spec(nodes: Seq<SyntaxNode>, i: int, t: NodeTarget) -> Option<NodeInfoView>
    decreases t, 0int, 0int,
{
    match name_index(nodes, i, t) {
        None => None,
        Some(k) => Some(
            NodeInfoView {
                node_type: nodes[i].kind@,
                name: trimmed(nodes[k].text@),
                start_position: nodes[k].start_position,
                children: if t.children.len() == 0 {
                    Seq::empty()
                } else {
                    gather(nodes, i + 1, subtree_end(nodes, i), 0, t.children@)
                },
            },
        ),
    }
}

/// The matches of `targets` over positions `[from, j)`, each position trying
/// every target in order, followed by those of the first `m` targets at `j`.
pub open spec fn gather(
    nodes: Seq<SyntaxNode>,
    from: int,
    j: int,
    m: int,
    targets: Seq<NodeTarget>,
) -> Seq<NodeInfoView>
    decreases targets, j - from, m,
{
    if m <= 0 {
        if j <= from {
            Seq::empty()
        } else {
            gather(nodes, from, j - 1, targets.len() as int, targets)
        }
    } else if m > targets.len() {
        Seq::empty()
    } else {
        let t = targets[m - 1];
        let here = if nodes[j].kind@ == t.node_type@ {
            match build_spec(nodes, j, t) {
                Some(v) => seq![v],
                None => Seq::empty(),
            }
        } else {
            Seq::empty()
        };
        gather(nodes, from, j, m - 1, targets) + here
    }
}

/// All matches of `targets` in a tree, in document pre-order.
pub open spec fn find_spec(nodes: Seq<SyntaxNode>, targets: Seq<NodeTarget>) -> Seq<NodeInfoView> {
    gather(nodes, 0, nodes.len() as int, 0, targets)
}

fn subtree_end_of(nodes: &Vec<SyntaxNode>, i: usize) -> (e: usize)
    requires
        i < nodes.len(),
    ensures
        e == subtree_end(nodes@, i as int),
        i < e <= nodes.len(),
{
    let mut k: usize = i + 1;
    while k < nodes.len() && nodes[k].depth > nodes[i].depth
        invariant
            i < k <= nodes.len(),
            scan_end(nodes@, i as int, i + 1) == scan_end(nodes@, i as int, k as int),
        decreases nodes.len() - k,
    {
        k = k + 1;
    }
    k
}

fn first_of_kind_in(nodes: &Vec<SyntaxNode>, kind: &String, from: usize, end: usize) -> (r: Option<
    usize,
>)
    requires
        from <= end <= nodes.len(),
    ensures
        match r {
            Some(k) => from <= k < end && first_of_kind(nodes@, kind@, from as int, end as int)
                == Some(k as int),
            None => first_of_kind(nodes@, kind@, from as int, end as int) is None,
        },
{
    let mut k: usize = from;
    while k < end
        invariant
            from <= k <= end <= nodes.len(),
            first_of_kind(nodes@, kind@, from as int, end as int) == first_of_kind(
                nodes@,
                kind@,
                k as int,
                end as int,
            ),
        decreases end - k,
    {
        if nodes[k].kind == *kind {
            return Some(k);
        }
        k = k + 1;
    }
    None
}

fn build_node(nodes: &Vec<SyntaxNode>, i: usize, t: &NodeTarget) -> (r: Option<NodeInfo>)
    requires
        i < nodes.len(),
    ensures
        match r {
            Some(n) => build_spec(nodes@, i as int, *t) == Some(n@),
            None => build_spec(nodes@, i as int, *t) is None,
        },
    decreases *t,
{
    let end = subtree_end_of(nodes, i);
    let k = match &t.ref_type {
        Some(rt) => match first_of_kind_in(nodes, rt, i, end) {
            Some(k) => k,
            None => {
                return None;
            },
        },
        None => i,
    };
    let name = trim_text(nodes[k].text.as_str());
    let children = if t.children.len() == 0 {
        Vec::new()
    } else {
        collect_matches(nodes, i + 1, end, &t.children)
    };
    let ghost child_view = infos_view(children@);
    proof {
        if t.children.len() == 0 {
            assert(child_view =~= Seq::<NodeInfoView>::empty());
        }
    }
    Some(
        NodeInfo {
            node_type: nodes[i].kind.clone(),
            name,
            start_position: nodes[k].start_position,
            children,
        },
    )
}

fn collect_matches(nodes: &Vec<SyntaxNode>, from: usize, to: usize, targets: &Vec<NodeTarget>) -> (r:
    Vec<NodeInfo>)
    requires
        from <= to <= nodes.len(),
    ensures
        infos_view(r@) == gather(nodes@, from as int, to as int, 0, targets@),
    decreases *targets,
{
    let mut r: Vec<NodeInfo> = Vec::new();
    let mut j: usize = from;
    while j < to
        invariant
            from <= j <= to <= nodes.len(),
            infos_view(r@) == gather(nodes@, from as int, j as int, 0, targets@),
        decreases to - j,
    {
        let mut m: usize = 0;
        while m < targets.len()
            invariant
                from <= j < to <= nodes.len(),
                m <= targets.len(),
                infos_view(r@) == gather(nodes@, from as int, j as int, m as int, targets@),
            decreases targets.len() - m,
        {
            let t = &targets[m];
            if nodes[j].kind == t.node_type {
                if let Some(n) = build_node(nodes, j, t) {
                    let ghost before = r@;
                    r.push(n);
                    assert(r@.drop_last() =~= before);
                    assert(infos_view(r@) =~= gather(
                        nodes@,
                        from as int,
                        j as int,
                        m + 1,
                        targets@,
                    ));
                } else {
                    assert(gather(nodes@, from as int, j as int, m + 1, targets@) =~= gather(
                        nodes@,
                        from as int,
                        j as int,
                        m as int,
                        targets@,
                    ));
                }
            } else {
                assert(gather(nodes@, from as int, j as int, m + 1, targets@) =~= gather(
                    nodes@,
                    from as int,
                    j as int,
                    m as int,
                    targets@,
                ));
            }
            m = m + 1;
        }
        j = j + 1;
    }
    r
}

/// Finds declarations in parsed syntax trees.
pub struct TreeAnalyzer {
    pub grammar: Grammar,
    pub reference_nodes: Vec<NodeTarget>,
}

impl TreeAnalyzer {
    pub fn new(grammar: Grammar, reference_nodes: Vec<NodeTarget>) -> (r: TreeAnalyzer)
        ensures
            r.grammar == grammar,
            r.reference_nodes == reference_nodes,
    {
        TreeAnalyzer { grammar, reference_nodes }
    }

    /// Every match of the reference nodes in `tree`, in document pre-order.
    pub fn find_positions(&self, tree: &SyntaxTree) -> (r: Vec<NodeInfo>)
        ensures
            infos_view(r@) == find_spec(tree.nodes@, self.reference_nodes@),
    {
        collect_matches(&tree.nodes, 0, tree.nodes.len(), &self.reference_nodes)
    }
}

} // verus!
