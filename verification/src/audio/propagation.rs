use super::audio_edge::Operation;
use super::audio_node::NodeView;
use super::frame::Frame;
use vstd::prelude::*;

verus! {

/// The nodes after the first effect of a new edge: the child is extended to
/// hold the parent's window, and the parent's content is combined into it.
/// The child's pending difference is left for the sweep.
pub open spec fn effected<F: Frame>(
    nodes: Seq<NodeView<F>>,
    parent: nat,
    child: nat,
    operation: Operation,
) -> Seq<NodeView<F>> {
    nodes.update(
        child as int,
        nodes[child as int].normalized(nodes[parent as int]).mixed(operation, nodes[parent as int]),
    )
}

/// The nodes after a change has been carried along one edge: the child is
/// extended to hold the parent's window, gains the parent's pending
/// difference, and states its own; then the parent commits.
pub open spec fn stepped<F: Frame>(nodes: Seq<NodeView<F>>, parent: nat, child: nat) -> Seq<
    NodeView<F>,
> {
    let reached = nodes[child as int].normalized(nodes[parent as int]).delta_applied(
        nodes[parent as int],
    ).delta_computed();
    nodes.update(child as int, reached).update(parent as int, nodes[parent as int].committed())
}

/// The nodes after a change has been carried along the edges of `path`, one
/// after the other.
pub open spec fn swept<F: Frame>(nodes: Seq<NodeView<F>>, path: Seq<(nat, nat, nat)>) -> Seq<
    NodeView<F>,
>
    decreases path.len(),
{
    if path.len() == 0 {
        nodes
    } else {
        stepped(swept(nodes, path.drop_last()), path.last().0, path.last().1)
    }
}

/// The nodes after a whole sweep: the change is carried along the edges of
/// `path`, and the child of the last edge commits.
pub open spec fn propagated<F: Frame>(nodes: Seq<NodeView<F>>, path: Seq<(nat, nat, nat)>) -> Seq<
    NodeView<F>,
> {
    if path.len() == 0 {
        nodes
    } else {
        let done = swept(nodes, path);
        let last = path.last().1;
        done.update(last as int, done[last as int].committed())
    }
}

/// Every node is consistent and runs at `sample_rate`.
pub open spec fn all_wf<F: Frame>(nodes: Seq<NodeView<F>>, sample_rate: u32) -> bool {
    forall|i: int|
        0 <= i < nodes.len() ==> (#[trigger] nodes[i]).wf() && nodes[i].clip.sample_rate
            == sample_rate
}

/// Every edge of `path` joins two different nodes among the first `bound`.
pub open spec fn path_within(path: Seq<(nat, nat, nat)>, bound: nat) -> bool {
    forall|k: int|
        0 <= k < path.len() ==> (#[trigger] path[k]).0 < bound && path[k].1 < bound && path[k].0
            != path[k].1
}

/// One step keeps the number of nodes, and keeps them consistent.
pub proof fn lemma_stepped_wf<F: Frame>(
    nodes: Seq<NodeView<F>>,
    sample_rate: u32,
    parent: nat,
    child: nat,
)
    requires
        all_wf(nodes, sample_rate),
        parent < nodes.len(),
        child < nodes.len(),
        parent != child,
    ensures
        stepped(nodes, parent, child).len() == nodes.len(),
        all_wf(stepped(nodes, parent, child), sample_rate),
{
    let p = nodes[parent as int];
    let c = nodes[child as int];
    assert(p.wf() && c.wf());
    let n = c.normalized(p);
    assert(n.wf());
    assert(n.delta_applied(p).wf());
    assert(n.delta_applied(p).delta_computed().wf());
    assert(p.committed().wf());
}

/// A sweep keeps the number of nodes, and keeps them consistent.
pub proof fn lemma_swept_wf<F: Frame>(
    nodes: Seq<NodeView<F>>,
    sample_rate: u32,
    path: Seq<(nat, nat, nat)>,
)
    requires
        all_wf(nodes, sample_rate),
        path_within(path, nodes.len()),
    ensures
        swept(nodes, path).len() == nodes.len(),
        all_wf(swept(nodes, path), sample_rate),
        propagated(nodes, path).len() == nodes.len(),
        all_wf(propagated(nodes, path), sample_rate),
    decreases path.len(),
{
    if path.len() > 0 {
        let front = path.drop_last();
        assert forall|k: int| 0 <= k < front.len() implies (#[trigger] front[k]).0 < nodes.len()
            && front[k].1 < nodes.len() && front[k].0 != front[k].1 by {
            assert(front[k] == path[k]);
        }
        lemma_swept_wf(nodes, sample_rate, front);
        let last = path.last();
        assert(last == path[path.len() - 1]);
        lemma_stepped_wf(swept(nodes, front), sample_rate, last.0, last.1);
        let done = swept(nodes, path);
        assert(done[last.1 as int].wf());
        assert(done[last.1 as int].committed().wf());
    }
}

} // verus!
