//! Typed directed edges for drawing the graph.

use vstd::prelude::*;
use crate::graph::Node;

verus! {

broadcast use vstd::seq_lib::lemma_seq_contains_after_push;

#[derive(PartialEq, Eq, Structural, Clone, Copy, Debug)]
pub enum EdgeType {
    /// From a child to its parent.
    Parent,
    /// From a node to a hard dependency.
    DependsOn,
    /// From a node to a soft dependency.
    SoftDependsOn,
    /// From a node to what its body or its project field refers to.
    Link,
}

#[derive(PartialEq, Eq, Structural, Clone, Copy, Debug)]
pub struct Edge {
    pub source: usize,
    pub target: usize,
    pub kind: EdgeType,
}

/// An edge joins two distinct nodes of the graph.
pub open spec fn joins_nodes(n: nat, e: Edge) -> bool {
    e.source != e.target && e.source < n && e.target < n
}

/// The edges that node `a`'s own fields give: its parent, the children it
/// lists, its dependencies of both kinds and the nodes that it says it
/// blocks, and its links.
pub open spec fn edge_of_node(ns: Seq<Node>, a: int, e: Edge) -> bool {
    let l = ns[a].links;
    joins_nodes(ns.len(), e) && match e.kind {
        EdgeType::Parent => (e.source == a && l.parent == Some(e.target)) || (e.target == a
            && l.children@.contains(e.source)),
        EdgeType::DependsOn => (e.source == a && l.depends_on@.contains(e.target)) || (e.target
            == a && l.blocks@.contains(e.source)),
        EdgeType::SoftDependsOn => (e.source == a && l.soft_depends_on@.contains(e.target)) || (
        e.target == a && l.soft_blocks@.contains(e.source)),
        EdgeType::Link => e.source == a && (ns[a].link_targets@.contains(e.target)
            || ns[a].project_target == Some(e.target)),
    }
}

/// `e` is an edge of the graph: one of its two ends gives it.
pub open spec fn graph_edge(ns: Seq<Node>, e: Edge) -> bool {
    edge_of_node(ns, e.source as int, e) || edge_of_node(ns, e.target as int, e)
}

fn push_edge(es: &mut Vec<Edge>, e: Edge, n: usize)
    requires
        old(es)@.no_duplicates(),
    ensures
        final(es)@.no_duplicates(),
        forall|x: Edge| #[trigger]
            final(es)@.contains(x) <==> (old(es)@.contains(x) || (x == e && joins_nodes(
                n as nat,
                e,
            ))),
{
    if e.source == e.target || e.source >= n || e.target >= n {
        return;
    }
    let mut k: usize = 0;
    while k < es.len()
        invariant
            es@ == old(es)@,
            es@.no_duplicates(),
            k <= es.len(),
            forall|q: int| 0 <= q < k ==> es@[q] != e,
        decreases es.len() - k,
    {
        if es[k] == e {
            return;
        }
        k = k + 1;
    }
    es.push(e);
}

/// Adds an edge for every node in `list`: from `a` to it when `outward`,
/// from it to `a` otherwise.
fn push_list_edges(es: &mut Vec<Edge>, list: &Vec<usize>, a: usize, kind: EdgeType, outward: bool, n: usize)
    requires
        old(es)@.no_duplicates(),
    ensures
        final(es)@.no_duplicates(),
        forall|x: Edge| #[trigger]
            final(es)@.contains(x) <==> (old(es)@.contains(x) || (joins_nodes(n as nat, x)
                && x.kind == kind && if outward {
                x.source == a && list@.contains(x.target)
            } else {
                x.target == a && list@.contains(x.source)
            })),
{
    let ghost start = es@;
    let mut k: usize = 0;
    while k < list.len()
        invariant
            k <= list.len(),
            es@.no_duplicates(),
            forall|x: Edge| #[trigger]
                es@.contains(x) <==> (start.contains(x) || (joins_nodes(n as nat, x) && x.kind
                    == kind && if outward {
                    x.source == a && list@.take(k as int).contains(x.target)
                } else {
                    x.target == a && list@.take(k as int).contains(x.source)
                })),
        decreases list.len() - k,
    {
        let t = list[k];
        assert(list@.take(k as int + 1) =~= list@.take(k as int).push(t));
        let e = if outward {
            Edge { source: a, target: t, kind }
        } else {
            Edge { source: t, target: a, kind }
        };
        push_edge(es, e, n);
        k = k + 1;
    }
    assert(list@.take(list@.len() as int) =~= list@);
}

fn push_node_edges(ns: &Vec<Node>, es: &mut Vec<Edge>, a: usize)
    requires
        a < ns.len(),
        old(es)@.no_duplicates(),
    ensures
        final(es)@.no_duplicates(),
        forall|x: Edge| #[trigger]
            final(es)@.contains(x) <==> (old(es)@.contains(x) || edge_of_node(ns@, a as int, x)),
{
    let n = ns.len();
    let node = &ns[a];
    let l = &node.links;
    if let Some(p) = l.parent {
        push_edge(es, Edge { source: a, target: p, kind: EdgeType::Parent }, n);
    }
    push_list_edges(es, &l.children, a, EdgeType::Parent, false, n);
    push_list_edges(es, &l.depends_on, a, EdgeType::DependsOn, true, n);
    push_list_edges(es, &l.blocks, a, EdgeType::DependsOn, false, n);
    push_list_edges(es, &l.soft_depends_on, a, EdgeType::SoftDependsOn, true, n);
    push_list_edges(es, &l.soft_blocks, a, EdgeType::SoftDependsOn, false, n);
    push_list_edges(es, &node.link_targets, a, EdgeType::Link, true, n);
    if let Some(p) = node.project_target {
        push_edge(es, Edge { source: a, target: p, kind: EdgeType::Link }, n);
    }
}

/// Every edge of the graph once: no edge joins a node to itself, and two
/// edges differ in an end or in their type.
pub fn materialize_edges(ns: &Vec<Node>) -> (es: Vec<Edge>)
    ensures
        es@.no_duplicates(),
        forall|x: Edge| #[trigger] es@.contains(x) <==> graph_edge(ns@, x),
{
    let mut es: Vec<Edge> = Vec::new();
    let mut a: usize = 0;
    while a < ns.len()
        invariant
            a <= ns.len(),
            es@.no_duplicates(),
            forall|x: Edge| #[trigger]
                es@.contains(x) <==> ((x.source < a && edge_of_node(ns@, x.source as int, x)) || (
                x.target < a && edge_of_node(ns@, x.target as int, x))),
        decreases ns.len() - a,
    {
        push_node_edges(ns, &mut es, a);
        assert forall|x: Edge| edge_of_node(ns@, a as int, x) implies x.source == a || x.target
            == a by {}
        a = a + 1;
    }
    es
}

} // verus!
