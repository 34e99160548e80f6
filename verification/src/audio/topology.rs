use super::reach::{reaches, Links};
use petgraph::stable_graph::{NodeIndex, StableGraph};
use petgraph::visit::{Dfs, EdgeRef, Walker};
use petgraph::{Directed, Outgoing};
use vstd::prelude::*;

verus! {

/// `petgraph`'s `StableGraph`, carried as a value that cannot be looked into.
#[verifier::external_type_specification]
#[verifier::external_body]
#[verifier::reject_recursive_types(N)]
#[verifier::reject_recursive_types(E)]
#[verifier::reject_recursive_types(Ty)]
#[verifier::reject_recursive_types(Ix)]
pub struct ExStableGraph<N, E, Ty, Ix>(StableGraph<N, E, Ty, Ix>);

/// `petgraph`'s marker for graphs with directed edges.
#[verifier::external_type_specification]
#[verifier::external_body]
pub struct ExDirected(Directed);

/// The node indices of a `petgraph` stable graph, from zero to the highest
/// that was ever handed out: for each, whether a node stands there now.
pub uninterp spec fn node_slots(graph: StableGraph<(), (), Directed, u32>) -> Seq<bool>;

/// The edge indices of a `petgraph` stable graph, from zero to the highest
/// that was ever handed out: for each, the source and target of the edge that
/// stands there now, if one does.
pub uninterp spec fn edge_slots(graph: StableGraph<(), (), Directed, u32>) -> Seq<
    Option<(nat, nat)>,
>;

/// The indices of the edges that leave `node`, in the order in which
/// `StableGraph::edges_directed` yields them.
pub uninterp spec fn outgoing(graph: StableGraph<(), (), Directed, u32>, node: nat) -> Seq<nat>;

/// The nodes that a `petgraph` depth-first search from `start` emits, in the
/// order in which it emits them.
pub uninterp spec fn preorder(graph: StableGraph<(), (), Directed, u32>, start: nat) -> Seq<nat>;

/// No index is vacant: a node stands at every node index and an edge between
/// two of them at every edge index. A graph that only ever grew is so.
pub open spec fn compact(graph: StableGraph<(), (), Directed, u32>) -> bool {
    &&& forall|i: int| 0 <= i < node_slots(graph).len() ==> #[trigger] node_slots(graph)[i]
    &&& forall|i: int|
        0 <= i < edge_slots(graph).len() ==> {
            &&& (#[trigger] edge_slots(graph)[i]) is Some
            &&& edge_slots(graph)[i]->Some_0.0 < node_slots(graph).len()
            &&& edge_slots(graph)[i]->Some_0.1 < node_slots(graph).len()
        }
}

/// The edge index `id` holds an edge from `from` to `to`.
pub open spec fn links_at(links: Links, id: nat, from: nat, to: nat) -> bool {
    id < links.len() && links[id as int] == Some((from, to))
}

/// `StableGraph::new`: a graph without nodes and without edges.
#[verifier::external_body]
pub(crate) fn topology_new() -> (graph: StableGraph<(), (), Directed, u32>)
    ensures
        node_slots(graph).len() == 0,
        edge_slots(graph).len() == 0,
{
    StableGraph::new()
}

/// `StableGraph::add_node`. Trusted: where no index is vacant, the new node
/// gets the next index, and the edges stay as they are. The call panics when
/// the indices of the index type are used up, hence the bound.
#[verifier::external_body]
pub(crate) fn topology_add_node(graph: &mut StableGraph<(), (), Directed, u32>) -> (id: usize)
    requires
        compact(*old(graph)),
        node_slots(*old(graph)).len() < u32::MAX,
    ensures
        id == node_slots(*old(graph)).len(),
        node_slots(*final(graph)) == node_slots(*old(graph)).push(true),
        edge_slots(*final(graph)) == edge_slots(*old(graph)),
{
    graph.add_node(()).index()
}

/// `StableGraph::add_edge`. Trusted: where no index is vacant, the new edge
/// gets the next index, and the nodes and the other edges stay as they are.
/// The call panics when an endpoint is no node of the graph, and when the
/// indices of the index type are used up, hence the three bounds.
#[verifier::external_body]
pub(crate) fn topology_add_edge(
    graph: &mut StableGraph<(), (), Directed, u32>,
    from: usize,
    to: usize,
) -> (id: usize)
    requires
        compact(*old(graph)),
        from < node_slots(*old(graph)).len(),
        to < node_slots(*old(graph)).len(),
        edge_slots(*old(graph)).len() < u32::MAX,
    ensures
        id == edge_slots(*old(graph)).len(),
        edge_slots(*final(graph)) == edge_slots(*old(graph)).push(
            Some((from as nat, to as nat)),
        ),
        node_slots(*final(graph)) == node_slots(*old(graph)),
{
    graph.add_edge(NodeIndex::new(from), NodeIndex::new(to), ()).index()
}

/// `StableGraph::edges_directed` with `Outgoing`, each edge as its index and
/// its target. Trusted: the iterator yields every edge whose source is `node`
/// once, and no other edge.
#[verifier::external_body]
pub(crate) fn topology_outgoing(graph: &StableGraph<(), (), Directed, u32>, node: usize) -> (out:
    Vec<(usize, usize)>)
    requires
        node < node_slots(*graph).len(),
        node_slots(*graph).len() <= u32::MAX,
    ensures
        out@.len() == outgoing(*graph, node as nat).len(),
        forall|k: int|
            0 <= k < out@.len() ==> (#[trigger] out@[k]).0 == outgoing(*graph, node as nat)[k]
                && links_at(edge_slots(*graph), out@[k].0 as nat, node as nat, out@[k].1 as nat),
        forall|j: int, k: int|
            0 <= j < k < out@.len() ==> (#[trigger] out@[j]).0 != (#[trigger] out@[k]).0,
        forall|id: nat, to: nat| #[trigger]
            links_at(edge_slots(*graph), id, node as nat, to) ==> exists|k: int|
                0 <= k < out@.len() && (#[trigger] out@[k]).0 == id,
{
    graph
        .edges_directed(NodeIndex::new(node), Outgoing)
        .map(|edge| (edge.id().index(), edge.target().index()))
        .collect()
}

/// `Dfs::new` from `start` and `Walker::iter` over the graph, each node as
/// its index. Trusted: a depth-first search emits `start` first, then every
/// node that can be reached from `start` along the edges, each once, and no
/// other node. The search marks `start` in a bit set of the graph's size,
/// hence the bound on `start`.
#[verifier::external_body]
pub(crate) fn topology_preorder(graph: &StableGraph<(), (), Directed, u32>, start: usize) -> (order:
    Vec<usize>)
    requires
        compact(*graph),
        start < node_slots(*graph).len(),
        node_slots(*graph).len() <= u32::MAX,
    ensures
        order@.len() == preorder(*graph, start as nat).len(),
        forall|k: int|
            0 <= k < order@.len() ==> #[trigger] order@[k] == preorder(*graph, start as nat)[k],
        order@.no_duplicates(),
        order@.len() > 0 && order@[0] == start,
        forall|node: nat| #[trigger]
            reaches(edge_slots(*graph), start as nat, node) <==> exists|k: int|
                0 <= k < order@.len() && #[trigger] order@[k] == node,
{
    Dfs::new(graph, NodeIndex::new(start)).iter(graph).map(|node| node.index()).collect()
}

} // verus!
