use super::audio_clip::silence;
use super::audio_edge::{combined, Operation};
use super::audio_node::{extended, frame_at, NodeView};
use super::frame::Frame;
use super::propagation::{
    all_wf, effected, lemma_stepped_wf, lemma_swept_wf, path_within, propagated, stepped, swept,
};
use super::reach::{
    acyclic, has_link, lemma_acyclic_link, lemma_acyclic_push, lemma_new_link,
    lemma_reaches_grows, lemma_reaches_self, lemma_reaches_step, links_within, reaches, Links,
};
use super::topology::links_at;
use vstd::prelude::*;

verus! {

/// A frame minus itself is silence.
pub proof fn lemma_sub_self<F: Frame>(a: F)
    ensures
        a.spec_sub_amp(a) == F::spec_equilibrium(),
{
    let zero = F::spec_equilibrium();
    F::add_commutes(zero, a);
    F::add_equilibrium(a);
    F::sub_undoes_add(zero, a);
}

/// Silence plus a frame is the frame.
pub proof fn lemma_equilibrium_add<F: Frame>(a: F)
    ensures
        F::spec_equilibrium().spec_add_amp(a) == a,
{
    F::add_commutes(F::spec_equilibrium(), a);
    F::add_equilibrium(a);
}

/// Silence before and after a run of frames changes no frame on the timeline.
pub proof fn lemma_extended_at<F: Frame>(frames: Seq<F>, start: nat, left: nat, right: nat, t: int)
    requires
        left <= start,
    ensures
        frame_at(extended(frames, left, right), (start - left) as nat, t) == frame_at(
            frames,
            start,
            t,
        ),
{
}

/// What the content of a node is at the time `t` once `parent`'s content has
/// been combined into it by `operation`: combined where `parent` has a
/// frame, as it was elsewhere.
pub open spec fn combined_at<F: Frame>(
    operation: Operation,
    child: NodeView<F>,
    parent: NodeView<F>,
    t: int,
) -> F {
    if parent.clip_start <= t < parent.end() {
        combined(operation, child.current_at(t), parent.current_at(t))
    } else {
        child.current_at(t)
    }
}

/// Extending a node to hold a parent's window keeps it consistent, keeps its
/// three signals as they were on the whole timeline, keeps it settled where
/// it was, and gives it the smallest window that holds both.
pub proof fn lemma_normalized<F: Frame>(child: NodeView<F>, parent: NodeView<F>)
    requires
        child.wf(),
        parent.wf(),
    ensures
        child.normalized(parent).wf(),
        child.normalized(parent).range_within(parent),
        child.normalized(parent).clip.sample_rate == child.clip.sample_rate,
        child.normalized(parent).clip_start == child.hull_start(parent),
        child.normalized(parent).end() == child.hull_end(parent),
        child.normalized(parent).delta_range == Some(
            (
                (parent.clip_start - child.hull_start(parent)) as nat,
                (parent.end() - child.hull_start(parent)) as nat,
            ),
        ),
        forall|t: int| #[trigger]
            child.normalized(parent).current_at(t) == child.current_at(t),
        forall|t: int| #[trigger]
            child.normalized(parent).previous_at(t) == child.previous_at(t),
        forall|t: int| #[trigger] child.normalized(parent).delta_at(t) == child.delta_at(t),
        child.settled() ==> child.normalized(parent).settled(),
{
    let after = child.normalized(parent);
    let left = (child.clip_start - child.hull_start(parent)) as nat;
    let right = (child.hull_end(parent) - child.end()) as nat;
    assert forall|t: int| #[trigger] after.current_at(t) == child.current_at(t) by {
        lemma_extended_at(child.clip.frames, child.clip_start, left, right, t);
    }
    assert forall|t: int| #[trigger] after.previous_at(t) == child.previous_at(t) by {
        lemma_extended_at(child.prev_clip.frames, child.clip_start, left, right, t);
    }
    assert forall|t: int| #[trigger] after.delta_at(t) == child.delta_at(t) by {
        lemma_extended_at(child.delta_clip.frames, child.clip_start, left, right, t);
    }
    if child.settled() {
        assert(after.delta_clip.frames =~= silence::<F>(after.delta_clip.frames.len()));
        assert(after.prev_clip.frames =~= after.clip.frames);
    }
}

/// The pending difference of a node is silence.
pub open spec fn delta_silent<F: Frame>(node: NodeView<F>) -> bool {
    node.delta_clip.frames == silence::<F>(node.delta_clip.frames.len())
}

/// A parent without a pending difference leaves its child as it is.
pub proof fn lemma_applied_silent<F: Frame>(child: NodeView<F>, parent: NodeView<F>)
    requires
        child.wf(),
        parent.wf(),
        child.range_within(parent),
        delta_silent(parent),
    ensures
        child.delta_applied(parent) == child,
{
    match child.delta_range {
        Some((lo, hi)) => {
            assert forall|i: int| 0 <= i < child.clip.frames.len() implies child.delta_applied(
                parent,
            ).clip.frames[i] == child.clip.frames[i] by {
                if lo <= i < hi {
                    F::add_equilibrium(child.clip.frames[i]);
                }
            }
            assert(child.delta_applied(parent).clip.frames =~= child.clip.frames);
        },
        None => {},
    }
}

/// A settled node has no pending difference to state.
pub proof fn lemma_computed_settled<F: Frame>(node: NodeView<F>)
    requires
        node.wf(),
        node.settled(),
    ensures
        node.delta_computed() == node,
{
    match node.delta_range {
        Some((lo, hi)) => {
            assert forall|i: int| 0 <= i < node.delta_clip.frames.len() implies node.delta_computed().delta_clip.frames[i]
                == node.delta_clip.frames[i] by {
                if lo <= i < hi {
                    lemma_sub_self(node.clip.frames[i]);
                }
            }
            assert(node.delta_computed().delta_clip.frames =~= node.delta_clip.frames);
        },
        None => {},
    }
}

/// Combining a parent into a child that was extended to hold the parent's
/// window changes the child's content where the parent has a frame, and
/// nowhere else.
pub proof fn lemma_mixed_at<F: Frame>(
    operation: Operation,
    child: NodeView<F>,
    parent: NodeView<F>,
    t: int,
)
    requires
        child.wf(),
        parent.wf(),
    ensures
        child.normalized(parent).mixed(operation, parent).wf(),
        child.normalized(parent).mixed(operation, parent).clip.sample_rate
            == child.clip.sample_rate,
        child.normalized(parent).mixed(operation, parent).clip_start == child.hull_start(parent),
        child.normalized(parent).mixed(operation, parent).end() == child.hull_end(parent),
        child.normalized(parent).mixed(operation, parent).current_at(t) == combined_at(
            operation,
            child,
            parent,
            t,
        ),
{
    lemma_normalized(child, parent);
    let held = child.normalized(parent);
    assert(held.current_at(t) == child.current_at(t));
}

/// Every node that `child` does not reach is settled.
pub open spec fn calm_outside<F: Frame>(nodes: Seq<NodeView<F>>, links: Links, child: nat) -> bool {
    forall|x: int|
        0 <= x < nodes.len() && !reaches(links, child, x as nat) ==> (#[trigger] nodes[x]).settled()
}

/// From `before` to `after` no node was lost, no window shrank, and the
/// content of `child`, and of every node that `child` does not reach, is on
/// the whole timeline what it was.
pub open spec fn kept<F: Frame>(
    before: Seq<NodeView<F>>,
    after: Seq<NodeView<F>>,
    links: Links,
    child: nat,
) -> bool {
    &&& after.len() == before.len()
    &&& forall|x: int|
        0 <= x < before.len() ==> (#[trigger] after[x]).clip_start <= before[x].clip_start
            && after[x].end() >= before[x].end()
    &&& forall|x: int, t: int|
        0 <= x < before.len() && (x == child || !reaches(links, child, x as nat)) ==> (
        #[trigger] after[x].current_at(t)) == before[x].current_at(t)
}

/// Every entry of `path` is an edge of `links`, by its index.
pub open spec fn along(links: Links, path: Seq<(nat, nat, nat)>) -> bool {
    forall|k: int|
        0 <= k < path.len() ==> links_at(links, (#[trigger] path[k]).2, path[k].0, path[k].1)
}

proof fn lemma_stepped_keeps<F: Frame>(
    nodes: Seq<NodeView<F>>,
    sample_rate: u32,
    links: Links,
    c: nat,
    parent: nat,
    child: nat,
)
    requires
        all_wf(nodes, sample_rate),
        acyclic(links),
        has_link(links, parent, child),
        parent < nodes.len(),
        child < nodes.len(),
        c < nodes.len(),
        calm_outside(nodes, links, c),
    ensures
        all_wf(stepped(nodes, parent, child), sample_rate),
        calm_outside(stepped(nodes, parent, child), links, c),
        kept(nodes, stepped(nodes, parent, child), links, c),
{
    lemma_acyclic_link(links, parent, child);
    lemma_stepped_wf(nodes, sample_rate, parent, child);
    let after = stepped(nodes, parent, child);
    let p = nodes[parent as int];
    let ch = nodes[child as int];
    assert(p.wf() && ch.wf());
    let held = ch.normalized(p);
    lemma_normalized(ch, p);
    let reached = held.delta_applied(p).delta_computed();
    assert(after[child as int] == reached);
    assert(after[parent as int] == p.committed());
    assert(p.committed().settled());
    if reaches(links, c, parent) {
        lemma_reaches_step(links, c, parent, child);
    }
    if child == c {
        lemma_acyclic_link(links, parent, c);
    }
    if !reaches(links, c, child) || child == c {
        assert(!reaches(links, c, parent));
        assert(p.settled());
        lemma_applied_silent(held, p);
        assert(held.delta_applied(p) == held);
        assert forall|t: int| #[trigger] reached.current_at(t) == ch.current_at(t) by {
            assert(held.current_at(t) == ch.current_at(t));
        }
        if !reaches(links, c, child) {
            assert(ch.settled());
            lemma_computed_settled(held);
        }
    }
    assert forall|x: int| 0 <= x < after.len() && !reaches(links, c, x as nat) implies (
    #[trigger] after[x]).settled() by {
        if x != child && x != parent {
            assert(after[x] == nodes[x]);
        }
    }
    assert forall|x: int| 0 <= x < nodes.len() implies (#[trigger] after[x]).clip_start
        <= nodes[x].clip_start && after[x].end() >= nodes[x].end() by {
        if x != child && x != parent {
            assert(after[x] == nodes[x]);
        }
    }
    assert forall|x: int, t: int|
        0 <= x < nodes.len() && (x == c || !reaches(links, c, x as nat)) implies (
    #[trigger] after[x].current_at(t)) == nodes[x].current_at(t) by {
        if x == child {
            assert(reached.current_at(t) == ch.current_at(t));
        } else if x == parent {
        } else {
            assert(after[x] == nodes[x]);
        }
    }
}

proof fn lemma_kept_chain<F: Frame>(
    first: Seq<NodeView<F>>,
    second: Seq<NodeView<F>>,
    third: Seq<NodeView<F>>,
    links: Links,
    c: nat,
)
    requires
        kept(first, second, links, c),
        kept(second, third, links, c),
    ensures
        kept(first, third, links, c),
{
    assert forall|x: int| 0 <= x < first.len() implies (#[trigger] third[x]).clip_start
        <= first[x].clip_start && third[x].end() >= first[x].end() by {
        assert(second[x].clip_start <= first[x].clip_start);
    }
    assert forall|x: int, t: int|
        0 <= x < first.len() && (x == c || !reaches(links, c, x as nat)) implies (
    #[trigger] third[x].current_at(t)) == first[x].current_at(t) by {
        assert(second[x].current_at(t) == first[x].current_at(t));
    }
}

proof fn lemma_along_within(links: Links, bound: nat, path: Seq<(nat, nat, nat)>, k: int)
    requires
        links_within(links, bound),
        along(links, path),
        0 <= k < path.len(),
    ensures
        has_link(links, path[k].0, path[k].1),
        path[k].0 < bound,
        path[k].1 < bound,
{
    assert(links_at(links, path[k].2, path[k].0, path[k].1));
    assert(links[path[k].2 as int] is Some);
}

proof fn lemma_swept_keeps<F: Frame>(
    nodes: Seq<NodeView<F>>,
    sample_rate: u32,
    links: Links,
    c: nat,
    path: Seq<(nat, nat, nat)>,
)
    requires
        all_wf(nodes, sample_rate),
        acyclic(links),
        links_within(links, nodes.len()),
        along(links, path),
        c < nodes.len(),
        calm_outside(nodes, links, c),
    ensures
        all_wf(swept(nodes, path), sample_rate),
        calm_outside(swept(nodes, path), links, c),
        kept(nodes, swept(nodes, path), links, c),
    decreases path.len(),
{
    if path.len() > 0 {
        let front = path.drop_last();
        assert forall|k: int| 0 <= k < front.len() implies links_at(
            links,
            (#[trigger] front[k]).2,
            front[k].0,
            front[k].1,
        ) by {
            assert(front[k] == path[k]);
        }
        lemma_swept_keeps(nodes, sample_rate, links, c, front);
        let mid = swept(nodes, front);
        let last = path.last();
        lemma_along_within(links, nodes.len(), path, path.len() - 1);
        lemma_stepped_keeps(mid, sample_rate, links, c, last.0, last.1);
        lemma_kept_chain(nodes, mid, swept(nodes, path), links, c);
    }
}

/// A whole sweep along edges of a graph without a cycle, begun where every
/// node that `c` does not reach is settled, ends so; it keeps every node
/// consistent, shrinks no window, and leaves the content of `c`, and of
/// every node that `c` does not reach, what it was on the whole timeline.
pub proof fn lemma_propagated_keeps<F: Frame>(
    nodes: Seq<NodeView<F>>,
    sample_rate: u32,
    links: Links,
    c: nat,
    path: Seq<(nat, nat, nat)>,
)
    requires
        all_wf(nodes, sample_rate),
        acyclic(links),
        links_within(links, nodes.len()),
        along(links, path),
        c < nodes.len(),
        calm_outside(nodes, links, c),
    ensures
        all_wf(propagated(nodes, path), sample_rate),
        calm_outside(propagated(nodes, path), links, c),
        kept(nodes, propagated(nodes, path), links, c),
{
    lemma_swept_keeps(nodes, sample_rate, links, c, path);
    if path.len() > 0 {
        let done = swept(nodes, path);
        let last = path.last().1;
        lemma_along_within(links, nodes.len(), path, path.len() - 1);
        let after = propagated(nodes, path);
        assert(after[last as int] == done[last as int].committed());
        assert(done[last as int].wf());
        assert forall|x: int| 0 <= x < after.len() implies (#[trigger] after[x]).wf()
            && after[x].clip.sample_rate == sample_rate by {
            if x != last {
                assert(after[x] == done[x]);
            }
        }
        assert forall|x: int| 0 <= x < after.len() && !reaches(links, c, x as nat) implies (
        #[trigger] after[x]).settled() by {
            if x != last {
                assert(after[x] == done[x]);
            }
        }
        assert forall|x: int| 0 <= x < nodes.len() implies (#[trigger] after[x]).clip_start
            <= nodes[x].clip_start && after[x].end() >= nodes[x].end() by {
            if x != last {
                assert(after[x] == done[x]);
            }
            assert(done[x].clip_start <= nodes[x].clip_start);
        }
        assert forall|x: int, t: int|
            0 <= x < nodes.len() && (x == c || !reaches(links, c, x as nat)) implies (
        #[trigger] after[x].current_at(t)) == nodes[x].current_at(t) by {
            if x != last {
                assert(after[x] == done[x]);
            }
            assert(done[x].current_at(t) == nodes[x].current_at(t));
        }
    }
}

/// What a new edge does to the graph. The edge leads from `parent` to
/// `child` in a graph without a cycle, `operation` is what it carries, and
/// `path` is any list of edges of the graph. Where every node that `child`
/// does not reach was settled, it is settled afterwards, and `parent` among
/// them; the content of `child` is, on the whole timeline, what it was with
/// `parent`'s content combined into it; the content of every other node that
/// `child` does not reach is what it was; and `child`'s window holds the
/// window it had and `parent`'s.
pub proof fn lemma_connected<F: Frame>(
    nodes: Seq<NodeView<F>>,
    sample_rate: u32,
    links: Links,
    parent: nat,
    child: nat,
    operation: Operation,
    path: Seq<(nat, nat, nat)>,
)
    requires
        all_wf(nodes, sample_rate),
        acyclic(links),
        links_within(links, nodes.len()),
        has_link(links, parent, child),
        parent < nodes.len(),
        child < nodes.len(),
        along(links, path),
        calm_outside(nodes, links, child),
    ensures
        propagated(effected(nodes, parent, child, operation), path).len() == nodes.len(),
        all_wf(propagated(effected(nodes, parent, child, operation), path), sample_rate),
        calm_outside(propagated(effected(nodes, parent, child, operation), path), links, child),
        propagated(effected(nodes, parent, child, operation), path)[parent as int].settled(),
        forall|t: int| #[trigger]
            propagated(effected(nodes, parent, child, operation), path)[child as int].current_at(t)
                == combined_at(operation, nodes[child as int], nodes[parent as int], t),
        forall|x: int, t: int|
            0 <= x < nodes.len() && x != child && !reaches(links, child, x as nat) ==> (
            #[trigger] propagated(effected(nodes, parent, child, operation), path)[x].current_at(t))
                == nodes[x].current_at(t),
        propagated(effected(nodes, parent, child, operation), path)[child as int].clip_start
            <= nodes[child as int].hull_start(nodes[parent as int]),
        propagated(effected(nodes, parent, child, operation), path)[child as int].end()
            >= nodes[child as int].hull_end(nodes[parent as int]),
{
    lemma_acyclic_link(links, parent, child);
    lemma_reaches_self(links, child);
    let p = nodes[parent as int];
    let c = nodes[child as int];
    assert(p.wf() && c.wf());
    let mid = effected(nodes, parent, child, operation);
    let after = propagated(mid, path);
    assert forall|x: int| 0 <= x < mid.len() implies (#[trigger] mid[x]).wf()
        && mid[x].clip.sample_rate == sample_rate by {
        if x == child {
            lemma_mixed_at(operation, c, p, 0);
        } else {
            assert(mid[x] == nodes[x]);
        }
    }
    assert forall|x: int| 0 <= x < mid.len() && !reaches(links, child, x as nat) implies (
    #[trigger] mid[x]).settled() by {
        assert(mid[x] == nodes[x]);
    }
    lemma_propagated_keeps(mid, sample_rate, links, child, path);
    assert forall|t: int| #[trigger]
        after[child as int].current_at(t) == combined_at(operation, c, p, t) by {
        lemma_mixed_at(operation, c, p, t);
        assert(after[child as int].current_at(t) == mid[child as int].current_at(t));
    }
    assert forall|x: int, t: int|
        0 <= x < nodes.len() && x != child && !reaches(links, child, x as nat) implies (
    #[trigger] after[x].current_at(t)) == nodes[x].current_at(t) by {
        assert(after[x].current_at(t) == mid[x].current_at(t));
        assert(mid[x] == nodes[x]);
    }
    lemma_mixed_at(operation, c, p, 0);
    assert(after[child as int].clip_start <= mid[child as int].clip_start);
}

/// Under `Add`, combining is adding on the whole timeline: beyond the
/// parent's window the parent is silent.
pub proof fn lemma_combined_add<F: Frame>(child: NodeView<F>, parent: NodeView<F>, t: int)
    requires
        parent.wf(),
    ensures
        combined_at(Operation::Add, child, parent, t) == child.current_at(t).spec_add_amp(
            parent.current_at(t),
        ),
{
    F::add_equilibrium(child.current_at(t));
}

/// A new edge that carries `Add` makes the content of its child, at every
/// time, the sum of what the child held and what the parent holds.
pub proof fn lemma_connect_add<F: Frame>(
    nodes: Seq<NodeView<F>>,
    sample_rate: u32,
    links: Links,
    parent: nat,
    child: nat,
    path: Seq<(nat, nat, nat)>,
    t: int,
)
    requires
        all_wf(nodes, sample_rate),
        acyclic(links),
        links_within(links, nodes.len()),
        has_link(links, parent, child),
        parent < nodes.len(),
        child < nodes.len(),
        along(links, path),
        calm_outside(nodes, links, child),
    ensures
        propagated(effected(nodes, parent, child, Operation::Add), path)[child as int].current_at(t)
            == nodes[child as int].current_at(t).spec_add_amp(nodes[parent as int].current_at(t)),
{
    lemma_connected(nodes, sample_rate, links, parent, child, Operation::Add, path);
    lemma_combined_add(nodes[child as int], nodes[parent as int], t);
}

/// A new edge that carries `Bypass` leaves the content of its child, at
/// every time, what it was.
pub proof fn lemma_connect_bypass<F: Frame>(
    nodes: Seq<NodeView<F>>,
    sample_rate: u32,
    links: Links,
    parent: nat,
    child: nat,
    path: Seq<(nat, nat, nat)>,
    t: int,
)
    requires
        all_wf(nodes, sample_rate),
        acyclic(links),
        links_within(links, nodes.len()),
        has_link(links, parent, child),
        parent < nodes.len(),
        child < nodes.len(),
        along(links, path),
        calm_outside(nodes, links, child),
    ensures
        propagated(effected(nodes, parent, child, Operation::Bypass), path)[child as int].current_at(
            t,
        ) == nodes[child as int].current_at(t),
{
    lemma_connected(nodes, sample_rate, links, parent, child, Operation::Bypass, path);
}

/// A new edge that carries `Add` extends its child to hold both windows,
/// and where the child had no frame, it now holds the parent's content and
/// nothing else.
pub proof fn lemma_connect_fills_gap<F: Frame>(
    nodes: Seq<NodeView<F>>,
    sample_rate: u32,
    links: Links,
    parent: nat,
    child: nat,
    path: Seq<(nat, nat, nat)>,
    t: int,
)
    requires
        all_wf(nodes, sample_rate),
        acyclic(links),
        links_within(links, nodes.len()),
        has_link(links, parent, child),
        parent < nodes.len(),
        child < nodes.len(),
        along(links, path),
        calm_outside(nodes, links, child),
        t < nodes[child as int].clip_start || t >= nodes[child as int].end(),
    ensures
        propagated(effected(nodes, parent, child, Operation::Add), path)[child as int].current_at(t)
            == nodes[parent as int].current_at(t),
        propagated(effected(nodes, parent, child, Operation::Add), path)[child as int].clip_start
            <= nodes[child as int].clip_start,
        propagated(effected(nodes, parent, child, Operation::Add), path)[child as int].clip_start
            <= nodes[parent as int].clip_start,
        propagated(effected(nodes, parent, child, Operation::Add), path)[child as int].end()
            >= nodes[child as int].end(),
        propagated(effected(nodes, parent, child, Operation::Add), path)[child as int].end()
            >= nodes[parent as int].end(),
{
    lemma_connect_add(nodes, sample_rate, links, parent, child, path, t);
    lemma_connected(nodes, sample_rate, links, parent, child, Operation::Add, path);
    assert(nodes[child as int].wf());
    lemma_equilibrium_add(nodes[parent as int].current_at(t));
}

proof fn lemma_calm_grows<F: Frame>(
    nodes: Seq<NodeView<F>>,
    links: Links,
    more: Option<(nat, nat)>,
    c: nat,
)
    requires
        calm_outside(nodes, links, c),
    ensures
        calm_outside(nodes, links.push(more), c),
{
    assert forall|x: int| 0 <= x < nodes.len() && !reaches(links.push(more), c, x as nat) implies (
    #[trigger] nodes[x]).settled() by {
        if reaches(links, c, x as nat) {
            lemma_reaches_grows(links, more, c, x as nat);
        }
    }
}

proof fn lemma_within_push(links: Links, bound: nat, from: nat, to: nat)
    requires
        links_within(links, bound),
        from < bound,
        to < bound,
    ensures
        links_within(links.push(Some((from, to))), bound),
        has_link(links.push(Some((from, to))), from, to),
{
    let grown = links.push(Some((from, to)));
    assert forall|i: int| 0 <= i < grown.len() && (#[trigger] grown[i]) is Some implies grown[i]->Some_0.0
        < bound && grown[i]->Some_0.1 < bound by {
        if i < links.len() {
            assert(grown[i] == links[i]);
        }
    }
    assert(grown[links.len() as int] == Some((from, to)));
}

/// What two new edges that carry `Add`, from `first` and then from `second`
/// to one `child`, make of the child's content at the time `t`: what the
/// child held, plus what `first` holds, plus what `second` holds.
proof fn lemma_two_adds<F: Frame>(
    nodes: Seq<NodeView<F>>,
    sample_rate: u32,
    links: Links,
    first: nat,
    second: nat,
    child: nat,
    path_one: Seq<(nat, nat, nat)>,
    path_two: Seq<(nat, nat, nat)>,
    t: int,
)
    requires
        all_wf(nodes, sample_rate),
        acyclic(links),
        links_within(links, nodes.len()),
        first < nodes.len(),
        second < nodes.len(),
        child < nodes.len(),
        !reaches(links, child, first),
        !reaches(links, child, second),
        calm_outside(nodes, links, child),
        along(links.push(Some((first, child))), path_one),
        along(links.push(Some((first, child))).push(Some((second, child))), path_two),
    ensures
        propagated(
            effected(
                propagated(effected(nodes, first, child, Operation::Add), path_one),
                second,
                child,
                Operation::Add,
            ),
            path_two,
        )[child as int].current_at(t) == nodes[child as int].current_at(t).spec_add_amp(
            nodes[first as int].current_at(t),
        ).spec_add_amp(nodes[second as int].current_at(t)),
{
    let one = links.push(Some((first, child)));
    let two = one.push(Some((second, child)));
    lemma_acyclic_push(links, first, child);
    lemma_within_push(links, nodes.len(), first, child);
    lemma_calm_grows(nodes, links, Some((first, child)), child);
    lemma_connected(nodes, sample_rate, one, first, child, Operation::Add, path_one);
    lemma_connect_add(nodes, sample_rate, one, first, child, path_one, t);
    let mid = propagated(effected(nodes, first, child, Operation::Add), path_one);
    if reaches(one, child, second) {
        lemma_new_link(links, first, child, child, second);
    }
    if second == child {
        lemma_reaches_self(links, child);
    }
    assert(mid[second as int].current_at(t) == nodes[second as int].current_at(t));
    lemma_acyclic_push(one, second, child);
    lemma_within_push(one, nodes.len(), second, child);
    lemma_calm_grows(mid, one, Some((second, child)), child);
    lemma_connect_add(mid, sample_rate, two, second, child, path_two, t);
}

/// Two parents joined to one child by edges that carry `Add` give the child
/// the same content at every time, whichever of the two is joined first.
/// This holds in a graph without a cycle in which the child reaches neither
/// parent, begun where every node that the child does not reach is settled,
/// and for any lists of edges of the graph that the two sweeps go along.
pub proof fn lemma_add_order<F: Frame>(
    nodes: Seq<NodeView<F>>,
    sample_rate: u32,
    links: Links,
    first: nat,
    second: nat,
    child: nat,
    first_then: (Seq<(nat, nat, nat)>, Seq<(nat, nat, nat)>),
    second_then: (Seq<(nat, nat, nat)>, Seq<(nat, nat, nat)>),
    t: int,
)
    requires
        all_wf(nodes, sample_rate),
        acyclic(links),
        links_within(links, nodes.len()),
        first < nodes.len(),
        second < nodes.len(),
        child < nodes.len(),
        !reaches(links, child, first),
        !reaches(links, child, second),
        calm_outside(nodes, links, child),
        along(links.push(Some((first, child))), first_then.0),
        along(links.push(Some((first, child))).push(Some((second, child))), first_then.1),
        along(links.push(Some((second, child))), second_then.0),
        along(links.push(Some((second, child))).push(Some((first, child))), second_then.1),
    ensures
        propagated(
            effected(
                propagated(effected(nodes, first, child, Operation::Add), first_then.0),
                second,
                child,
                Operation::Add,
            ),
            first_then.1,
        )[child as int].current_at(t) == propagated(
            effected(
                propagated(effected(nodes, second, child, Operation::Add), second_then.0),
                first,
                child,
                Operation::Add,
            ),
            second_then.1,
        )[child as int].current_at(t),
{
    lemma_two_adds(
        nodes,
        sample_rate,
        links,
        first,
        second,
        child,
        first_then.0,
        first_then.1,
        t,
    );
    lemma_two_adds(
        nodes,
        sample_rate,
        links,
        second,
        first,
        child,
        second_then.0,
        second_then.1,
        t,
    );
    let c = nodes[child as int].current_at(t);
    let a = nodes[first as int].current_at(t);
    let b = nodes[second as int].current_at(t);
    F::add_associates(c, a, b);
    F::add_commutes(a, b);
    F::add_associates(c, b, a);
}

/// Every node is settled.
pub open spec fn all_settled<F: Frame>(nodes: Seq<NodeView<F>>) -> bool {
    forall|x: int| 0 <= x < nodes.len() ==> (#[trigger] nodes[x]).settled()
}

/// `path` is a chain from the edge `parent` to `child`: that edge comes
/// first, and every edge after it leaves the node that the edge before it
/// leads to.
pub open spec fn chained(path: Seq<(nat, nat, nat)>, parent: nat, child: nat) -> bool {
    &&& path.len() > 0
    &&& path[0].0 == parent
    &&& path[0].1 == child
    &&& forall|k: int| 1 <= k < path.len() ==> (#[trigger] path[k]).0 == path[k - 1].1
}

proof fn lemma_chain_swept<F: Frame>(
    nodes: Seq<NodeView<F>>,
    sample_rate: u32,
    parent: nat,
    child: nat,
    path: Seq<(nat, nat, nat)>,
)
    requires
        all_wf(nodes, sample_rate),
        path_within(path, nodes.len()),
        chained(path, parent, child),
        forall|x: int| 0 <= x < nodes.len() && x != child ==> (#[trigger] nodes[x]).settled(),
    ensures
        swept(nodes, path).len() == nodes.len(),
        all_wf(swept(nodes, path), sample_rate),
        forall|x: int|
            0 <= x < nodes.len() && x != path.last().1 ==> (#[trigger] swept(
                nodes,
                path,
            )[x]).settled(),
    decreases path.len(),
{
    lemma_swept_wf(nodes, sample_rate, path);
    let front = path.drop_last();
    let last = path.last();
    assert(last == path[path.len() - 1]);
    let after = swept(nodes, path);
    if front.len() == 0 {
        assert(swept(nodes, front) == nodes);
        assert(last == path[0]);
        assert forall|x: int| 0 <= x < nodes.len() && x != last.1 implies (#[trigger] after[x]).settled() by {
            if x != last.0 {
                assert(after[x] == nodes[x]);
            }
        }
    } else {
        assert forall|k: int| 0 <= k < front.len() implies (#[trigger] front[k]).0 < nodes.len()
            && front[k].1 < nodes.len() && front[k].0 != front[k].1 by {
            assert(front[k] == path[k]);
        }
        assert(front[0] == path[0]);
        assert forall|k: int| 1 <= k < front.len() implies (#[trigger] front[k]).0 == front[k
            - 1].1 by {
            assert(front[k] == path[k]);
            assert(front[k - 1] == path[k - 1]);
        }
        lemma_chain_swept(nodes, sample_rate, parent, child, front);
        let mid = swept(nodes, front);
        assert(front.last() == path[path.len() - 2]);
        assert(last.0 == front.last().1);
        assert forall|x: int| 0 <= x < nodes.len() && x != last.1 implies (#[trigger] after[x]).settled() by {
            if x != last.0 {
                assert(after[x] == mid[x]);
            }
        }
    }
}

/// Where a sweep goes along a chain, as it does in a graph in which no node
/// has two edges that leave it, a new edge into a settled graph leaves the
/// graph settled: every node has its content as its snapshot and nothing
/// pending.
pub proof fn lemma_chain_settles<F: Frame>(
    nodes: Seq<NodeView<F>>,
    sample_rate: u32,
    parent: nat,
    child: nat,
    operation: Operation,
    path: Seq<(nat, nat, nat)>,
)
    requires
        all_wf(nodes, sample_rate),
        all_settled(nodes),
        parent < nodes.len(),
        child < nodes.len(),
        parent != child,
        path_within(path, nodes.len()),
        chained(path, parent, child),
    ensures
        all_wf(propagated(effected(nodes, parent, child, operation), path), sample_rate),
        all_settled(propagated(effected(nodes, parent, child, operation), path)),
{
    let p = nodes[parent as int];
    let c = nodes[child as int];
    assert(p.wf() && c.wf());
    let mid = effected(nodes, parent, child, operation);
    assert forall|x: int| 0 <= x < mid.len() implies (#[trigger] mid[x]).wf()
        && mid[x].clip.sample_rate == sample_rate by {
        if x == child {
            lemma_mixed_at(operation, c, p, 0);
        } else {
            assert(mid[x] == nodes[x]);
        }
    }
    assert forall|x: int| 0 <= x < mid.len() && x != child implies (#[trigger] mid[x]).settled() by {
        assert(mid[x] == nodes[x]);
    }
    lemma_chain_swept(mid, sample_rate, parent, child, path);
    lemma_swept_wf(mid, sample_rate, path);
    let done = swept(mid, path);
    let last = path.last().1;
    assert(path.last() == path[path.len() - 1]);
    let after = propagated(mid, path);
    assert(done[last as int].wf());
    assert forall|x: int| 0 <= x < after.len() implies (#[trigger] after[x]).settled() by {
        if x != last {
            assert(after[x] == done[x]);
        }
    }
}

/// Every operation on a node keeps its three clips of one length and one
/// start time.
pub proof fn lemma_shape_kept<F: Frame>(
    node: NodeView<F>,
    parent: NodeView<F>,
    operation: Operation,
    size: nat,
    value: F,
    start: nat,
)
    requires
        node.shaped(),
    ensures
        node.clips_resized(size, value).shaped(),
        node.clips_padded(size).shaped(),
        node.moved_to(start).shaped(),
        node.normalized(parent).shaped(),
        node.mixed(operation, parent).shaped(),
        node.delta_applied(parent).shaped(),
        node.delta_computed().shaped(),
        node.committed().shaped(),
{
}

/// After a commit the pending difference is silence at every index, and the
/// snapshot is the content.
pub proof fn lemma_committed<F: Frame>(node: NodeView<F>, i: int)
    requires
        0 <= i < node.delta_clip.frames.len(),
    ensures
        node.committed().delta_clip.frames[i] == F::spec_equilibrium(),
        node.committed().prev_clip == node.committed().clip,
        node.committed().clip == node.clip,
        node.committed().delta_range is None,
{
}

} // verus!
