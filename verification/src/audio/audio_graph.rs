use super::audio_clip::AudioClip;
use super::audio_edge::{AudioGraphEdge, Operation};
use super::audio_node::{AudioNode, NodeView};
use super::error::AudioError;
use super::frame::Frame;
use super::reach::{
    acyclic, lemma_acyclic_push, lemma_reaches_within, links_within, reaches, Links,
};
use super::topology::{
    compact, edge_slots, links_at, node_slots, outgoing, preorder, topology_add_edge,
    topology_add_node, topology_new, topology_outgoing, topology_preorder,
};
use petgraph::stable_graph::StableGraph;
use petgraph::Directed;
use vstd::prelude::*;

verus! {

/// A node of the graph by the order in which the nodes were added.
pub type NodeId = usize;

/// An edge of the graph by the order in which the edges were added.
pub type EdgeId = usize;

/// The decimal digits of a number.
pub open spec fn digits(n: nat) -> Seq<char>
    decreases n,
{
    let last = if n % 10 == 0 {
        '0'
    } else if n % 10 == 1 {
        '1'
    } else if n % 10 == 2 {
        '2'
    } else if n % 10 == 3 {
        '3'
    } else if n % 10 == 4 {
        '4'
    } else if n % 10 == 5 {
        '5'
    } else if n % 10 == 6 {
        '6'
    } else if n % 10 == 7 {
        '7'
    } else if n % 10 == 8 {
        '8'
    } else {
        '9'
    };
    if n < 10 {
        seq![last]
    } else {
        digits(n / 10).push(last)
    }
}

/// A number written out in decimal, with a minus sign where it is negative.
pub open spec fn decimal(n: int) -> Seq<char> {
    if n < 0 {
        seq!['-'] + digits((-n) as nat)
    } else {
        digits(n as nat)
    }
}

/// `i32::to_string`. Trusted: the text of an integer is its decimal digits,
/// after a minus sign where it is negative.
#[verifier::external_body]
fn number_text(n: i32) -> (text: String)
    ensures
        text@ == decimal(n as int),
{
    n.to_string()
}

/// A vertex of the graph: the one root, or a node that feeds it.
pub enum AudioGraphNode<F> {
    RootNode(AudioNode<F>),
    DataNode(AudioNode<F>),
}

impl<F> AudioGraphNode<F> {
    /// The node inside, whichever kind of vertex this is.
    pub open spec fn node(self) -> AudioNode<F> {
        match self {
            AudioGraphNode::RootNode(node) => node,
            AudioGraphNode::DataNode(node) => node,
        }
    }

    pub fn get_node(&self) -> (node: &AudioNode<F>)
        ensures
            *node == self.node(),
    {
        match self {
            AudioGraphNode::RootNode(node) => node,
            AudioGraphNode::DataNode(node) => node,
        }
    }
}

/// What an edge is: where it leads from and to, and what it carries.
pub struct EdgeView {
    pub from: nat,
    pub to: nat,
    pub operation: Operation,
    pub description: Seq<char>,
}

/// What a graph is: its nodes and its edges, each in the order in which they
/// were added, the place of the root among the nodes, and the number that
/// the next indexed node will be named by.
pub struct GraphView<F> {
    pub nodes: Seq<NodeView<F>>,
    pub edges: Seq<EdgeView>,
    pub root: nat,
    pub next_index: int,
}

impl<F: Frame> GraphView<F> {
    /// The edges as pairs of source and target.
    pub open spec fn links(self) -> Links {
        Seq::new(self.edges.len(), |i: int| Some((self.edges[i].from, self.edges[i].to)))
    }

    /// An edge from `from` to `to` that carries `operation` is there.
    pub open spec fn has_edge(self, from: nat, to: nat, operation: Operation) -> bool {
        exists|i: int|
            0 <= i < self.edges.len() && (#[trigger] self.edges[i]).from == from
                && self.edges[i].to == to && self.edges[i].operation == operation
    }

    /// The graph is consistent: the root is one of its nodes, every node is,
    /// every edge joins two nodes, none leaves the root, no two edges agree
    /// in source, target and operation, and there is no cycle.
    pub open spec fn wf(self) -> bool {
        &&& self.root < self.nodes.len()
        &&& self.nodes.len() <= u32::MAX
        &&& self.edges.len() <= u32::MAX
        &&& forall|i: int| 0 <= i < self.nodes.len() ==> (#[trigger] self.nodes[i]).wf()
        &&& forall|i: int|
            0 <= i < self.edges.len() ==> (#[trigger] self.edges[i]).from < self.nodes.len()
                && self.edges[i].to < self.nodes.len() && self.edges[i].from != self.root
        &&& forall|i: int, j: int|
            0 <= i < j < self.edges.len() ==> !((#[trigger] self.edges[i]).from == (
            #[trigger] self.edges[j]).from && self.edges[i].to == self.edges[j].to
                && self.edges[i].operation == self.edges[j].operation)
        &&& acyclic(self.links())
    }

    /// The target an edge gets where it is asked for with `child`: the node
    /// named, or the root where none is.
    pub open spec fn target(self, child: Option<NodeId>) -> nat {
        match child {
            Some(id) => id as nat,
            None => self.root,
        }
    }

    /// Why an edge from `parent` to `child` that carries `operation` is
    /// refused, if it is: an endpoint that is no node; a source that is the
    /// root, or a target from which the source can be reached; an edge of the
    /// same source, target and operation.
    pub open spec fn refusal(self, parent: NodeId, child: Option<NodeId>, operation: Operation)
        -> Option<AudioError> {
        let to = self.target(child);
        if parent >= self.nodes.len() || to >= self.nodes.len() {
            Some(AudioError::UnknownNode)
        } else if parent == self.root || reaches(self.links(), to, parent as nat) {
            Some(AudioError::CycleDetected)
        } else if self.has_edge(parent as nat, to, operation) {
            Some(AudioError::DuplicateEdge)
        } else {
            None
        }
    }

    /// The graph with one more edge.
    pub open spec fn connected(self, parent: NodeId, child: Option<NodeId>, edge: AudioGraphEdge)
        -> Self {
        GraphView {
            edges: self.edges.push(
                EdgeView {
                    from: parent as nat,
                    to: self.target(child),
                    operation: edge.operation,
                    description: edge.description@,
                },
            ),
            ..self
        }
    }
}

/// A directed acyclic graph of audio nodes with one root, the sink. The
/// nodes and what the edges carry live here; which edges there are, and the
/// walks over them, are `petgraph`'s.
pub struct AudioGraph<F> {
    graph: StableGraph<(), (), Directed, u32>,
    pub root: NodeId,
    nodes: Vec<AudioGraphNode<F>>,
    edges: Vec<AudioGraphEdge>,
    ends: Vec<(NodeId, NodeId)>,
    node_id: i32,
}

impl<F: Frame> View for AudioGraph<F> {
    type V = GraphView<F>;

    closed spec fn view(&self) -> GraphView<F> {
        GraphView {
            nodes: Seq::new(self.nodes@.len(), |i: int| self.nodes@[i].node()@),
            edges: Seq::new(
                self.edges@.len(),
                |i: int|
                    EdgeView {
                        from: self.ends@[i].0 as nat,
                        to: self.ends@[i].1 as nat,
                        operation: self.edges@[i].operation,
                        description: self.edges@[i].description@,
                    },
            ),
            root: self.root as nat,
            next_index: self.node_id as int,
        }
    }
}

/// The edges that leave `node`, each as its source, its target and its index,
/// in the order in which the graph yields them.
pub open spec fn edges_from(graph: StableGraph<(), (), Directed, u32>, node: nat) -> Seq<
    (nat, nat, nat),
> {
    Seq::new(
        outgoing(graph, node).len(),
        |k: int|
            (
                node,
                edge_slots(graph)[outgoing(graph, node)[k] as int]->Some_0.1,
                outgoing(graph, node)[k],
            ),
    )
}

/// The edges that leave the nodes of `order`, node by node.
pub open spec fn gathered(graph: StableGraph<(), (), Directed, u32>, order: Seq<nat>) -> Seq<
    (nat, nat, nat),
>
    decreases order.len(),
{
    if order.len() == 0 {
        Seq::empty()
    } else {
        gathered(graph, order.drop_last()) + edges_from(graph, order.last())
    }
}

/// The edges below `node`: a depth-first search from `node` along the edges,
/// and for each node it comes to, in the order in which it comes to them, all
/// the edges that leave that node.
pub open spec fn schedule(graph: StableGraph<(), (), Directed, u32>, nodes: nat, node: nat) -> Seq<
    (nat, nat, nat),
> {
    if node < nodes {
        gathered(graph, preorder(graph, node))
    } else {
        Seq::empty()
    }
}

/// A list of edges as the library hands it out, in numbers without a limit.
pub open spec fn as_triples(path: Seq<(NodeId, NodeId, EdgeId)>) -> Seq<(nat, nat, nat)> {
    Seq::new(path.len(), |k: int| (path[k].0 as nat, path[k].1 as nat, path[k].2 as nat))
}

/// Every entry of `path` is an edge of `links`, by its index, and leaves a
/// node that `node` reaches.
pub open spec fn follows(links: Links, node: nat, path: Seq<(nat, nat, nat)>) -> bool {
    forall|k: int|
        0 <= k < path.len() ==> links_at(
            links,
            (#[trigger] path[k]).2,
            path[k].0,
            path[k].1,
        ) && reaches(links, node, path[k].0)
}

impl<F: Frame> AudioGraph<F> {
    /// The graph of `petgraph` that holds the edges.
    pub closed spec fn topology(&self) -> StableGraph<(), (), Directed, u32> {
        self.graph
    }

    /// `petgraph`'s graph has the nodes and edges that this graph has, and
    /// the root is the one vertex of its kind.
    pub closed spec fn synced(&self) -> bool {
        &&& self.ends@.len() == self.edges@.len()
        &&& compact(self.graph)
        &&& node_slots(self.graph).len() == self.nodes@.len()
        &&& edge_slots(self.graph) == self@.links()
        &&& forall|i: int|
            0 <= i < self.nodes@.len() ==> ((#[trigger] self.nodes@[i]) is RootNode <==> i
                == self.root)
    }

    /// The graph is consistent, inside and out.
    pub open spec fn wf(&self) -> bool {
        self@.wf() && self.synced()
    }

    /// The edges below `node`, in the order in which a change to `node` is
    /// carried along them.
    pub open spec fn dependents(&self, node: nat) -> Seq<(nat, nat, nat)> {
        schedule(self.topology(), self@.nodes.len(), node)
    }

    /// A graph with one node, the root: five seconds of silence by the name
    /// of `root`.
    pub fn new() -> (graph: Self)
        ensures
            graph.wf(),
            graph@.nodes.len() == 1,
            graph@.nodes[0] == AudioNode::<F>::fresh(AudioClip::<F>::default_view(), Some("root"@)),
            graph@.edges.len() == 0,
            graph@.root == 0,
            graph@.next_index == 1,
    {
        let mut graph = topology_new();
        let root = topology_add_node(&mut graph);
        let audio_node = AudioNode::new(AudioClip::<F>::default(), Some("root"));
        let mut nodes: Vec<AudioGraphNode<F>> = Vec::new();
        nodes.push(AudioGraphNode::RootNode(audio_node));
        let made = AudioGraph { graph, root, nodes, edges: Vec::new(), ends: Vec::new(), node_id: 1 };
        proof {
            assert(made@.links() =~= edge_slots(made.graph));
            assert(node_slots(made.graph)[0]);
        }
        made
    }

    /// Adds `audio_node` as a node that feeds the root, and returns its id.
    pub fn add_data_node(&mut self, audio_node: AudioNode<F>) -> (id: NodeId)
        requires
            old(self).wf(),
            audio_node@.wf(),
            old(self)@.nodes.len() < u32::MAX,
        ensures
            final(self).wf(),
            id == old(self)@.nodes.len(),
            final(self)@ == (GraphView {
                nodes: old(self)@.nodes.push(audio_node@),
                ..old(self)@
            }),
    {
        let id = topology_add_node(&mut self.graph);
        self.nodes.push(AudioGraphNode::DataNode(audio_node));
        proof {
            assert(self@.nodes =~= old(self)@.nodes.push(audio_node@));
            assert(self@.edges =~= old(self)@.edges);
            assert(self@.links() =~= old(self)@.links());
            assert forall|i: int| 0 <= i < self@.nodes.len() implies (#[trigger] self@.nodes[i]).wf() by {
                if i < old(self)@.nodes.len() {
                    assert(old(self)@.nodes[i].wf());
                }
            }
        }
        id
    }

    /// The id of the root.
    pub fn get_root(&self) -> (root: NodeId)
        ensures
            root == self@.root,
    {
        self.root
    }

    pub fn node_count(&self) -> (count: usize)
        ensures
            count == self@.nodes.len(),
    {
        self.nodes.len()
    }

    pub fn edge_count(&self) -> (count: usize)
        ensures
            count == self@.edges.len(),
    {
        self.edges.len()
    }

    /// The node of the given id, or nothing where there is none.
    pub fn get_node_ref(&self, node_idx: NodeId) -> (node: Option<&AudioNode<F>>)
        ensures
            node is Some == (node_idx < self@.nodes.len()),
            node is Some ==> node->Some_0@ == self@.nodes[node_idx as int],
    {
        if node_idx < self.nodes.len() {
            Some(self.nodes[node_idx].get_node())
        } else {
            None
        }
    }

    /// What the edge of the given id carries, or nothing where there is none.
    pub fn get_edge_ref(&self, edge_idx: EdgeId) -> (edge: Option<&AudioGraphEdge>)
        ensures
            edge is Some == (edge_idx < self@.edges.len()),
            edge is Some ==> edge->Some_0.operation == self@.edges[edge_idx as int].operation
                && edge->Some_0.description@ == self@.edges[edge_idx as int].description,
    {
        if edge_idx < self.edges.len() {
            Some(&self.edges[edge_idx])
        } else {
            None
        }
    }

    /// What the edge of the given id carries, or nothing where there is none.
    pub fn get_edge_mut(&mut self, edge_idx: EdgeId) -> (edge: Option<&AudioGraphEdge>)
        ensures
            *final(self) == *old(self),
            edge is Some == (edge_idx < old(self)@.edges.len()),
            edge is Some ==> edge->Some_0.operation == old(self)@.edges[edge_idx as int].operation
                && edge->Some_0.description@ == old(self)@.edges[edge_idx as int].description,
    {
        if edge_idx < self.edges.len() {
            Some(&self.edges[edge_idx])
        } else {
            None
        }
    }

    /// Where the edge of the given id leads from and to, or nothing where
    /// there is none.
    pub fn get_edge_endpoints(&self, edge_idx: EdgeId) -> (ends: Option<(NodeId, NodeId)>)
        requires
            self.wf(),
        ensures
            ends is Some == (edge_idx < self@.edges.len()),
            ends is Some ==> ends->Some_0.0 == self@.edges[edge_idx as int].from && ends->Some_0.1
                == self@.edges[edge_idx as int].to,
    {
        if edge_idx < self.ends.len() {
            Some(self.ends[edge_idx])
        } else {
            None
        }
    }

    /// Whether `to` reaches `from` along the edges.
    fn leads_back(&self, from: NodeId, to: NodeId) -> (back: bool)
        requires
            self.wf(),
            from < self@.nodes.len(),
            to < self@.nodes.len(),
        ensures
            back == reaches(self@.links(), to as nat, from as nat),
    {
        let order = topology_preorder(&self.graph, to);
        let ghost links = self@.links();
        let mut i: usize = 0;
        while i < order.len()
            invariant
                i <= order@.len(),
                forall|k: int| 0 <= k < i ==> order@[k] != from,
                links == self@.links(),
                reaches(links, to as nat, from as nat) <==> exists|k: int|
                    0 <= k < order@.len() && #[trigger] order@[k] == from as nat,
            decreases order@.len() - i,
        {
            if order[i] == from {
                assert(order@[i as int] == from as nat);
                return true;
            }
            i += 1;
        }
        false
    }

    /// Whether an edge from `from` to `to` that carries `operation` is there.
    fn holds_edge(&self, from: NodeId, to: NodeId, operation: Operation) -> (held: bool)
        requires
            self.wf(),
        ensures
            held == self@.has_edge(from as nat, to as nat, operation),
    {
        let mut i: usize = 0;
        while i < self.edges.len()
            invariant
                self.wf(),
                i <= self@.edges.len(),
                self@.edges.len() == self.edges@.len(),
                self@.edges.len() == self.ends@.len(),
                forall|k: int|
                    0 <= k < i ==> !((#[trigger] self@.edges[k]).from == from && self@.edges[k].to
                        == to && self@.edges[k].operation == operation),
                forall|k: int|
                    0 <= k < self@.edges.len() ==> (#[trigger] self@.edges[k]).from
                        == self.ends@[k].0 && self@.edges[k].to == self.ends@[k].1
                        && self@.edges[k].operation == self.edges@[k].operation,
            decreases self@.edges.len() - i,
        {
            let ends = self.ends[i];
            if ends.0 == from && ends.1 == to && self.edges[i].operation == operation {
                assert(self@.edges[i as int].from == from);
                return true;
            }
            i += 1;
        }
        false
    }

    /// Adds an edge from `parent` to `child`, or to the root where no child
    /// is named, and returns its id. The edge is refused, and the graph left
    /// as it is, where an endpoint is no node of the graph, where the edge
    /// would leave the root or close a cycle, and where an edge of the same
    /// endpoints and operation is there already.
    pub fn connect(&mut self, parent: NodeId, child: Option<NodeId>, edge: AudioGraphEdge) -> (id:
        Result<EdgeId, AudioError>)
        requires
            old(self).wf(),
            old(self)@.edges.len() < u32::MAX,
        ensures
            final(self).wf(),
            match old(self)@.refusal(parent, child, edge.operation) {
                Some(error) => id == Err::<EdgeId, AudioError>(error) && *final(self) == *old(self),
                None => id == Ok::<EdgeId, AudioError>(old(self)@.edges.len() as usize)
                    && final(self)@ == old(self)@.connected(parent, child, edge),
            },
    {
        let to = match child {
            Some(child) => child,
            None => self.root,
        };
        if parent >= self.nodes.len() || to >= self.nodes.len() {
            return Err(AudioError::UnknownNode);
        }
        if parent == self.root || self.leads_back(parent, to) {
            return Err(AudioError::CycleDetected);
        }
        if self.holds_edge(parent, to, edge.operation) {
            return Err(AudioError::DuplicateEdge);
        }
        let ghost before = self@;
        let ghost after = before.connected(parent, child, edge);
        let id = topology_add_edge(&mut self.graph, parent, to);
        self.ends.push((parent, to));
        self.edges.push(edge);
        proof {
            assert(self@.edges =~= after.edges);
            assert(self@.nodes =~= after.nodes);
            assert(self@.links() =~= before.links().push(Some((parent as nat, to as nat))));
            lemma_acyclic_push(before.links(), parent as nat, to as nat);
            assert forall|i: int, j: int| 0 <= i < j < after.edges.len() implies !((
            #[trigger] after.edges[i]).from == (#[trigger] after.edges[j]).from && after.edges[i].to
                == after.edges[j].to && after.edges[i].operation == after.edges[j].operation) by {
                if j == before.edges.len() {
                    assert(after.edges[i] == before.edges[i]);
                } else {
                    assert(after.edges[i] == before.edges[i]);
                    assert(after.edges[j] == before.edges[j]);
                }
            }
            assert forall|i: int| 0 <= i < after.edges.len() implies (#[trigger] after.edges[i]).from
                < after.nodes.len() && after.edges[i].to < after.nodes.len() && after.edges[i].from
                != after.root by {
                if i < before.edges.len() {
                    assert(after.edges[i] == before.edges[i]);
                }
            }
        }
        Ok(id)
    }

    /// The edges below `node_idx`: every node that can be reached from it,
    /// in depth-first order, each with all the edges that leave it, as
    /// source, target and edge id. A change to the node is carried along
    /// these edges in this order. An id that names no node has none.
    pub fn collect_dependents(&self, node_idx: NodeId) -> (path: Vec<(NodeId, NodeId, EdgeId)>)
        requires
            self.wf(),
        ensures
            as_triples(path@) == self.dependents(node_idx as nat),
            follows(self@.links(), node_idx as nat, as_triples(path@)),
    {
        let mut to_compute: Vec<(NodeId, NodeId, EdgeId)> = Vec::new();
        if node_idx >= self.nodes.len() {
            assert(as_triples(to_compute@) =~= self.dependents(node_idx as nat));
            return to_compute;
        }
        let order = topology_preorder(&self.graph, node_idx);
        let ghost visited = preorder(self.graph, node_idx as nat);
        let ghost links = self@.links();
        assert(visited =~= Seq::new(order@.len(), |k: int| order@[k] as nat));
        assert(gathered(self.graph, visited.take(0)) =~= Seq::empty());
        let mut i: usize = 0;
        while i < order.len()
            invariant
                self.wf(),
                links == self@.links(),
                links == edge_slots(self.graph),
                node_slots(self.graph).len() == self@.nodes.len(),
                node_idx < self@.nodes.len(),
                i <= order@.len(),
                visited.len() == order@.len(),
                forall|k: int| 0 <= k < order@.len() ==> #[trigger] order@[k] == visited[k],
                forall|node: nat| #[trigger]
                    reaches(links, node_idx as nat, node) <==> exists|k: int|
                        0 <= k < order@.len() && #[trigger] order@[k] == node,
                as_triples(to_compute@) == gathered(self.graph, visited.take(i as int)),
                follows(links, node_idx as nat, as_triples(to_compute@)),
            decreases order@.len() - i,
        {
            let node = order[i];
            proof {
                assert(reaches(links, node_idx as nat, node as nat));
                assert(links_within(links, self@.nodes.len())) by {
                    assert forall|k: int| 0 <= k < links.len() && (#[trigger] links[k]) is Some implies links[k]->Some_0.0
                        < self@.nodes.len() && links[k]->Some_0.1 < self@.nodes.len() by {
                        assert(self@.edges[k].from < self@.nodes.len());
                    }
                }
                lemma_reaches_within(links, self@.nodes.len(), node_idx as nat, node as nat);
            }
            let out = topology_outgoing(&self.graph, node);
            let ghost base = to_compute@;
            let ghost leaving = edges_from(self.graph, node as nat);
            let mut j: usize = 0;
            while j < out.len()
                invariant
                    j <= out@.len(),
                    out@.len() == outgoing(self.graph, node as nat).len(),
                    forall|k: int|
                        0 <= k < out@.len() ==> (#[trigger] out@[k]).0 == outgoing(
                            self.graph,
                            node as nat,
                        )[k] && links_at(
                            edge_slots(self.graph),
                            out@[k].0 as nat,
                            node as nat,
                            out@[k].1 as nat,
                        ),
                    links == edge_slots(self.graph),
                    leaving == edges_from(self.graph, node as nat),
                    reaches(links, node_idx as nat, node as nat),
                    follows(links, node_idx as nat, as_triples(to_compute@)),
                    as_triples(to_compute@) == as_triples(base) + leaving.take(j as int),
                decreases out@.len() - j,
            {
                let (edge_id, target) = out[j];
                let ghost held = to_compute@;
                to_compute.push((node, target, edge_id));
                proof {
                    assert(out@[j as int].0 == edge_id);
                    assert(leaving[j as int] == (node as nat, target as nat, edge_id as nat));
                    assert(as_triples(to_compute@) =~= as_triples(held).push(
                        (node as nat, target as nat, edge_id as nat),
                    ));
                    assert(leaving.take(j + 1) =~= leaving.take(j as int).push(leaving[j as int]));
                    assert(as_triples(to_compute@) =~= as_triples(base) + leaving.take(j + 1));
                    assert forall|k: int| 0 <= k < as_triples(to_compute@).len() implies links_at(
                        links,
                        (#[trigger] as_triples(to_compute@)[k]).2,
                        as_triples(to_compute@)[k].0,
                        as_triples(to_compute@)[k].1,
                    ) && reaches(links, node_idx as nat, as_triples(to_compute@)[k].0) by {
                        if k < held.len() {
                            assert(as_triples(to_compute@)[k] == as_triples(held)[k]);
                        }
                    }
                }
                j += 1;
            }
            proof {
                assert(leaving.take(out@.len() as int) =~= leaving);
                assert(visited.take(i + 1).drop_last() =~= visited.take(i as int));
                assert(visited.take(i + 1).last() == node as nat);
            }
            i += 1;
        }
        assert(visited.take(order@.len() as int) =~= visited);
        to_compute
    }

    /// The id of the latest node, the root aside, that goes by `id`.
    pub fn get_node_id(&self, id: &str) -> (found: Option<NodeId>)
        requires
            self.wf(),
        ensures
            match found {
                Some(at) => at < self@.nodes.len() && at != self@.root && self@.nodes[at as int].name
                    == Some(id@) && forall|k: int|
                    at < k < self@.nodes.len() && k != self@.root ==> (#[trigger] self@.nodes[k]).name
                        != Some(id@),
                None => forall|k: int|
                    0 <= k < self@.nodes.len() && k != self@.root ==> (#[trigger] self@.nodes[k]).name
                        != Some(id@),
            },
    {
        let mut i: usize = self.nodes.len();
        while i > 0
            invariant
                i <= self@.nodes.len(),
                self@.nodes.len() == self.nodes@.len(),
                forall|k: int| 0 <= k < self@.nodes.len() ==> #[trigger] self@.nodes[k] == self.nodes@[k].node()@,
                forall|k: int|
                    i <= k < self@.nodes.len() && k != self@.root ==> (#[trigger] self@.nodes[k]).name
                        != Some(id@),
                self@.root == self.root,
            decreases i,
        {
            i -= 1;
            if i != self.root && self.nodes[i].get_node().has_name(id) {
                return Some(i);
            }
        }
        None
    }

    /// The node of the given id, to be changed in place, or nothing where
    /// there is none.
    pub fn get_node_mut(&mut self, node_idx: NodeId) -> (node: Option<&mut AudioNode<F>>)
        ensures
            node is Some == (node_idx < old(self)@.nodes.len()),
            match node {
                Some(held) => held@ == old(self)@.nodes[node_idx as int] && final(self)@.nodes
                    =~= old(self)@.nodes.update(node_idx as int, final(held)@) && final(self)@.edges
                    =~= old(self)@.edges && final(self)@.root == old(self)@.root
                    && final(self)@.next_index == old(self)@.next_index && final(self).topology()
                    == old(self).topology() && (old(self).synced() ==> final(self).synced()),
                None => *final(self) == *old(self),
            },
    {
        if node_idx < self.nodes.len() {
            match &mut self.nodes[node_idx] {
                AudioGraphNode::RootNode(held) => Some(held),
                AudioGraphNode::DataNode(held) => Some(held),
            }
        } else {
            None
        }
    }

    /// A node of five seconds of silence, named by the number of such nodes
    /// made so far, counted from one.
    pub fn create_indexed_node(&mut self) -> (node: AudioNode<F>)
        requires
            old(self)@.next_index < i32::MAX,
        ensures
            final(self)@ == (GraphView { next_index: old(self)@.next_index + 1, ..old(self)@ }),
            final(self).topology() == old(self).topology(),
            old(self).synced() ==> final(self).synced(),
            node@ == AudioNode::<F>::fresh(
                AudioClip::<F>::default_view(),
                Some(decimal(old(self)@.next_index)),
            ),
            node@.wf(),
    {
        let name = number_text(self.node_id);
        self.node_id += 1;
        proof {
            assert(self@.nodes =~= old(self)@.nodes);
            assert(self@.edges =~= old(self)@.edges);
            assert(self@.links() =~= old(self)@.links());
        }
        AudioNode::new(AudioClip::<F>::default(), Some(name.as_str()))
    }

    /// Exchanges the node of the given id with `node`. Which kind of vertex
    /// stands at the id, and every edge, stay as they are.
    pub(crate) fn swap_node(&mut self, node_idx: NodeId, node: &mut AudioNode<F>)
        requires
            node_idx < old(self)@.nodes.len(),
        ensures
            final(self)@ == (GraphView {
                nodes: old(self)@.nodes.update(node_idx as int, old(node)@),
                ..old(self)@
            }),
            final(node)@ == old(self)@.nodes[node_idx as int],
            final(self).topology() == old(self).topology(),
            old(self).synced() ==> final(self).synced(),
    {
        match &mut self.nodes[node_idx] {
            AudioGraphNode::RootNode(held) => {
                core::mem::swap(held, node);
            },
            AudioGraphNode::DataNode(held) => {
                core::mem::swap(held, node);
            },
        }
        proof {
            assert(self@.nodes =~= old(self)@.nodes.update(node_idx as int, old(node)@));
            assert(self@.edges =~= old(self)@.edges);
            assert(self@.links() =~= old(self)@.links());
        }
    }
}

} // verus!
