use super::audio_clip::{
    averaged, can_resample, duplicated, length_at, mono_frames, mono_resampled, stereo_frames,
    stereo_resampled, AudioClip, AudioClipEnum, ClipView, DEFAULT_SAMPLE_RATE,
};
use super::audio_edge::{AudioGraphEdge, Operation};
use super::audio_graph::{as_triples, follows, AudioGraph, EdgeId, GraphView, NodeId};
use super::audio_node::AudioNode;
use super::error::AudioError;
use super::frame::{Frame, Mono, Stereo};
use super::propagation::{
    all_wf, effected, lemma_stepped_wf, lemma_swept_wf, path_within, propagated, stepped, swept,
};
use super::reach::{has_link, lemma_acyclic_link, lemma_reaches_self};
use super::topology::links_at;
use vstd::prelude::*;

verus! {

/// What a processor is: its graph, the place of the root in it, the rate it
/// runs at, and the index of the frame that the next pull returns.
pub struct ProcessorView<F> {
    pub graph: GraphView<F>,
    pub root: nat,
    pub sample_rate: u32,
    pub cursor: nat,
}

/// The engine: it owns the graph, carries every edit through it, and hands
/// out the root's content frame by frame.
pub struct AudioProcessor<F> {
    audio_graph: AudioGraph<F>,
    root_frame_idx: usize,
    pub root_node_index: NodeId,
    sample_rate: u32,
}

impl<F: Frame> View for AudioProcessor<F> {
    type V = ProcessorView<F>;

    closed spec fn view(&self) -> ProcessorView<F> {
        ProcessorView {
            graph: self.audio_graph@,
            root: self.root_node_index as nat,
            sample_rate: self.sample_rate,
            cursor: self.root_frame_idx as nat,
        }
    }
}

/// In a consistent graph, the edges of a path that follows its edges join
/// different nodes of the graph.
pub proof fn lemma_follows_within<F: Frame>(
    graph: GraphView<F>,
    node: nat,
    path: Seq<(nat, nat, nat)>,
)
    requires
        graph.wf(),
        follows(graph.links(), node, path),
    ensures
        path_within(path, graph.nodes.len()),
{
    assert forall|k: int| 0 <= k < path.len() implies (#[trigger] path[k]).0 < graph.nodes.len()
        && path[k].1 < graph.nodes.len() && path[k].0 != path[k].1 by {
        let e = path[k].2 as int;
        assert(links_at(graph.links(), path[k].2, path[k].0, path[k].1));
        assert(graph.links()[e] == Some((path[k].0, path[k].1)));
        assert(graph.edges[e].from == path[k].0);
        assert(has_link(graph.links(), path[k].0, path[k].1));
        lemma_acyclic_link(graph.links(), path[k].0, path[k].1);
    }
}

impl<F: Frame> AudioProcessor<F> {
    /// The graph the processor owns.
    pub closed spec fn graph(&self) -> AudioGraph<F> {
        self.audio_graph
    }

    /// The processor is consistent: its graph is, the root it names is the
    /// graph's, and every node runs at its rate.
    pub open spec fn wf(&self) -> bool {
        &&& self.graph().wf()
        &&& self.graph()@ == self@.graph
        &&& self@.root == self@.graph.root
        &&& all_wf(self@.graph.nodes, self@.sample_rate)
    }

    /// A processor at the default rate whose graph holds the root alone, five
    /// seconds of silence.
    pub fn new() -> (processor: Self)
        ensures
            processor.wf(),
            processor@.graph.nodes.len() == 1,
            processor@.graph.nodes[0] == AudioNode::<F>::fresh(
                AudioClip::<F>::default_view(),
                Some("root"@),
            ),
            processor@.graph.edges.len() == 0,
            processor@.root == 0,
            processor@.sample_rate == DEFAULT_SAMPLE_RATE,
            processor@.cursor == 0,
    {
        let audio_graph = AudioGraph::new();
        let root_node_index = audio_graph.get_root();
        AudioProcessor {
            audio_graph,
            root_frame_idx: 0,
            root_node_index,
            sample_rate: DEFAULT_SAMPLE_RATE,
        }
    }

    /// The graph, to be read.
    pub fn lock_audio_graph(&self) -> (graph: &AudioGraph<F>)
        ensures
            *graph == self.graph(),
    {
        &self.audio_graph
    }

    /// The frame at the cursor of the node named, or of the root where none
    /// is; the cursor then moves on by one. Where the node has no frame at
    /// the cursor, or no node goes by the id, nothing is returned and the
    /// cursor stays.
    pub fn get_node_or_root_sample(&mut self, node: Option<NodeId>) -> (frame: Option<F>)
        requires
            old(self).wf(),
        ensures
            final(self).wf(),
            final(self).graph() == old(self).graph(),
            ({
                let at = old(self)@.graph.target(node);
                let cursor = old(self)@.cursor;
                if at < old(self)@.graph.nodes.len() && cursor < old(self)@.graph.nodes[at as int].clip.frames.len() {
                    frame == Some(old(self)@.graph.nodes[at as int].clip.frames[cursor as int])
                        && final(self)@ == (ProcessorView { cursor: cursor + 1, ..old(self)@ })
                } else {
                    frame is None && final(self)@ == old(self)@
                }
            }),
    {
        let node_idx = match node {
            Some(id) => id,
            None => self.root_node_index,
        };
        let found = match self.audio_graph.get_node_ref(node_idx) {
            Some(held) => held.get_clip().get_frame(self.root_frame_idx),
            None => None,
        };
        if found.is_some() {
            self.root_frame_idx = self.root_frame_idx + 1;
        }
        found
    }

    /// Moves the cursor.
    pub fn set_root_frame_idx(&mut self, idx: usize)
        ensures
            final(self)@ == (ProcessorView { cursor: idx as nat, ..old(self)@ }),
            final(self).graph() == old(self).graph(),
    {
        self.root_frame_idx = idx;
    }

    /// Carries a change along one edge: the child is extended to hold the
    /// parent's window, gains the parent's pending difference and states its
    /// own; then the parent commits.
    fn carry(&mut self, parent: NodeId, child: NodeId)
        requires
            old(self).wf(),
            parent < old(self)@.graph.nodes.len(),
            child < old(self)@.graph.nodes.len(),
            parent != child,
        ensures
            final(self).wf(),
            final(self)@ == (ProcessorView {
                graph: GraphView {
                    nodes: stepped(old(self)@.graph.nodes, parent as nat, child as nat),
                    ..old(self)@.graph
                },
                ..old(self)@
            }),
            final(self).graph().topology() == old(self).graph().topology(),
    {
        let ghost nodes = self@.graph.nodes;
        let mut child_node = AudioNode::vacant();
        self.audio_graph.swap_node(child, &mut child_node);
        match self.audio_graph.get_node_ref(parent) {
            Some(parent_node) => {
                child_node.normalize_clip_bounds(parent_node);
                child_node.apply_delta(parent_node);
                child_node.compute_delta();
            },
            None => {},
        }
        self.audio_graph.swap_node(child, &mut child_node);
        let mut parent_node = AudioNode::vacant();
        self.audio_graph.swap_node(parent, &mut parent_node);
        parent_node.commit_changes();
        self.audio_graph.swap_node(parent, &mut parent_node);
        proof {
            assert(self@.graph.nodes =~= stepped(nodes, parent as nat, child as nat));
            lemma_stepped_wf(nodes, self@.sample_rate, parent as nat, child as nat);
        }
    }

    /// The first effect of a new edge: the child is extended to hold the
    /// parent's window, and the parent's content is combined into it.
    fn effect(&mut self, parent: NodeId, child: NodeId, operation: Operation)
        requires
            old(self).wf(),
            parent < old(self)@.graph.nodes.len(),
            child < old(self)@.graph.nodes.len(),
            parent != child,
        ensures
            final(self).wf(),
            final(self)@ == (ProcessorView {
                graph: GraphView {
                    nodes: effected(old(self)@.graph.nodes, parent as nat, child as nat, operation),
                    ..old(self)@.graph
                },
                ..old(self)@
            }),
            final(self).graph().topology() == old(self).graph().topology(),
    {
        let ghost nodes = self@.graph.nodes;
        let mut child_node = AudioNode::vacant();
        self.audio_graph.swap_node(child, &mut child_node);
        match self.audio_graph.get_node_ref(parent) {
            Some(parent_node) => {
                child_node.normalize_clip_bounds(parent_node);
                child_node.mix(operation, parent_node);
            },
            None => {},
        }
        self.audio_graph.swap_node(child, &mut child_node);
        proof {
            assert(self@.graph.nodes =~= effected(nodes, parent as nat, child as nat, operation));
            assert(nodes[child as int].wf() && nodes[parent as int].wf());
        }
    }

    /// Runs the first effect of the edge `edge_idx` between the two nodes
    /// named: the child is extended to hold the parent's window, and the
    /// parent's content is combined into it by the operation of the edge. An
    /// id that names nothing is refused, and so is a node upon itself.
    pub fn apply_effect(&mut self, parent_idx: NodeId, child_idx: NodeId, edge_idx: EdgeId) -> (done:
        Result<(), AudioError>)
        requires
            old(self).wf(),
        ensures
            final(self).wf(),
            final(self).graph().topology() == old(self).graph().topology(),
            match Self::effect_refusal(old(self)@, parent_idx, child_idx, edge_idx) {
                Some(error) => done == Err::<(), AudioError>(error) && *final(self) == *old(self),
                None => done == Ok::<(), AudioError>(()) && final(self)@ == (ProcessorView {
                    graph: GraphView {
                        nodes: effected(
                            old(self)@.graph.nodes,
                            parent_idx as nat,
                            child_idx as nat,
                            old(self)@.graph.edges[edge_idx as int].operation,
                        ),
                        ..old(self)@.graph
                    },
                    ..old(self)@
                }),
            },
    {
        if parent_idx >= self.audio_graph.node_count() || child_idx >= self.audio_graph.node_count() {
            return Err(AudioError::UnknownNode);
        }
        let operation = match self.audio_graph.get_edge_ref(edge_idx) {
            Some(edge) => edge.operation,
            None => {
                return Err(AudioError::UnknownEdge);
            },
        };
        if parent_idx == child_idx {
            return Err(AudioError::CycleDetected);
        }
        self.effect(parent_idx, child_idx, operation);
        Ok(())
    }

    /// Why `apply_effect` refuses, if it does.
    pub open spec fn effect_refusal(
        processor: ProcessorView<F>,
        parent_idx: NodeId,
        child_idx: NodeId,
        edge_idx: EdgeId,
    ) -> Option<AudioError> {
        if parent_idx >= processor.graph.nodes.len() || child_idx >= processor.graph.nodes.len() {
            Some(AudioError::UnknownNode)
        } else if edge_idx >= processor.graph.edges.len() {
            Some(AudioError::UnknownEdge)
        } else if parent_idx == child_idx {
            Some(AudioError::CycleDetected)
        } else {
            None
        }
    }

    /// Carries a change of the node named to everything below it: along each
    /// edge below the node, in depth-first order, the child is extended,
    /// gains the parent's pending difference and states its own, and the
    /// parent commits; at the end the child of the last edge commits too.
    pub fn propagate_change(&mut self, node_idx: NodeId)
        requires
            old(self).wf(),
        ensures
            final(self).wf(),
            final(self).graph().topology() == old(self).graph().topology(),
            follows(
                old(self)@.graph.links(),
                node_idx as nat,
                old(self).graph().dependents(node_idx as nat),
            ),
            final(self)@ == (ProcessorView {
                graph: GraphView {
                    nodes: propagated(
                        old(self)@.graph.nodes,
                        old(self).graph().dependents(node_idx as nat),
                    ),
                    ..old(self)@.graph
                },
                ..old(self)@
            }),
    {
        let to_compute = self.audio_graph.collect_dependents(node_idx);
        let ghost start = self@;
        let ghost path = as_triples(to_compute@);
        proof {
            lemma_follows_within(start.graph, node_idx as nat, path);
            assert(path.take(0) =~= Seq::<(nat, nat, nat)>::empty());
        }
        let mut i: usize = 0;
        while i < to_compute.len()
            invariant
                self.wf(),
                i <= to_compute@.len(),
                path == as_triples(to_compute@),
                path_within(path, start.graph.nodes.len()),
                all_wf(start.graph.nodes, start.sample_rate),
                self.graph().topology() == old(self).graph().topology(),
                self@ == (ProcessorView {
                    graph: GraphView {
                        nodes: swept(start.graph.nodes, path.take(i as int)),
                        ..start.graph
                    },
                    ..start
                }),
                self@.graph.nodes.len() == start.graph.nodes.len(),
            decreases to_compute@.len() - i,
        {
            let (parent, child, _edge) = to_compute[i];
            proof {
                assert(path[i as int] == (parent as nat, child as nat, _edge as nat));
                assert(path.take(i + 1).drop_last() =~= path.take(i as int));
                assert(path.take(i + 1).last() == path[i as int]);
            }
            self.carry(parent, child);
            i += 1;
        }
        proof {
            assert(path.take(to_compute@.len() as int) =~= path);
        }
        if to_compute.len() > 0 {
            let (_parent, last_child, _edge) = to_compute[to_compute.len() - 1];
            proof {
                assert(path.last() == (_parent as nat, last_child as nat, _edge as nat));
                lemma_swept_wf(start.graph.nodes, start.sample_rate, path);
            }
            let ghost done = self@.graph.nodes;
            let mut child_node = AudioNode::vacant();
            self.audio_graph.swap_node(last_child, &mut child_node);
            child_node.commit_changes();
            self.audio_graph.swap_node(last_child, &mut child_node);
            proof {
                assert(self@.graph.nodes =~= done.update(
                    last_child as int,
                    done[last_child as int].committed(),
                ));
            }
        }
    }

    /// Adds an edge from `parent` to `child`, or to the root where no child
    /// is named, and makes the graph reflect it: the operation of the edge
    /// combines the parent's content into the child, and the change is
    /// carried to everything below the parent. Returns the id of the edge.
    /// A refused edge leaves the processor as it is.
    pub fn connect(&mut self, parent: NodeId, child: Option<NodeId>, edge: AudioGraphEdge) -> (id:
        Result<EdgeId, AudioError>)
        requires
            old(self).wf(),
            old(self)@.graph.edges.len() < u32::MAX,
        ensures
            final(self).wf(),
            match old(self)@.graph.refusal(parent, child, edge.operation) {
                Some(error) => id == Err::<EdgeId, AudioError>(error) && *final(self) == *old(self),
                None => id == Ok::<EdgeId, AudioError>(old(self)@.graph.edges.len() as usize)
                    && follows(
                    final(self)@.graph.links(),
                    parent as nat,
                    final(self).graph().dependents(parent as nat),
                ) && final(self)@ == (ProcessorView {
                    graph: GraphView {
                        nodes: propagated(
                            effected(
                                old(self)@.graph.nodes,
                                parent as nat,
                                old(self)@.graph.target(child),
                                edge.operation,
                            ),
                            final(self).graph().dependents(parent as nat),
                        ),
                        ..old(self)@.graph.connected(parent, child, edge)
                    },
                    ..old(self)@
                }),
            },
    {
        let operation = edge.operation;
        let child_node_index = match child {
            Some(id) => id,
            None => self.audio_graph.get_root(),
        };
        let edge_id = match self.audio_graph.connect(parent, child, edge) {
            Ok(id) => id,
            Err(error) => {
                return Err(error);
            },
        };
        proof {
            if parent == child_node_index {
                lemma_reaches_self(old(self)@.graph.links(), parent as nat);
            }
        }
        self.effect(parent, child_node_index, operation);
        let ghost mid = *self;
        self.propagate_change(parent);
        proof {
            let path = mid.graph().dependents(parent as nat);
            lemma_follows_within(mid@.graph, parent as nat, path);
            lemma_swept_wf(mid@.graph.nodes, mid@.sample_rate, path);
            assert(self@.graph.nodes.len() == mid@.graph.nodes.len());
            assert(self.graph().dependents(parent as nat) == path);
            assert(self@.graph.links() == mid@.graph.links());
        }
        Ok(edge_id)
    }

    /// Adds a node as it is. A node whose clip does not run at the
    /// processor's rate is refused.
    pub fn add_node(&mut self, node: AudioNode<F>) -> (id: Result<NodeId, AudioError>)
        requires
            old(self).wf(),
            node@.wf(),
            old(self)@.graph.nodes.len() < u32::MAX,
        ensures
            final(self).wf(),
            node@.clip.sample_rate != old(self)@.sample_rate ==> id == Err::<NodeId, AudioError>(
                AudioError::RateMismatch,
            ) && *final(self) == *old(self),
            node@.clip.sample_rate == old(self)@.sample_rate ==> id == Ok::<NodeId, AudioError>(
                old(self)@.graph.nodes.len() as usize,
            ) && final(self)@ == (ProcessorView {
                graph: GraphView {
                    nodes: old(self)@.graph.nodes.push(node@),
                    ..old(self)@.graph
                },
                ..old(self)@
            }),
    {
        if node.get_clip().get_sample_rate() != self.sample_rate {
            return Err(AudioError::RateMismatch);
        }
        let id = self.audio_graph.add_data_node(node);
        Ok(id)
    }

    /// A copy of the content of the node named, or nothing where no node
    /// goes by the id.
    pub fn get_node_frames_copy(&self, node_index: NodeId) -> (frames: Option<Vec<F>>)
        requires
            self.wf(),
        ensures
            frames is Some == (node_index < self@.graph.nodes.len()),
            frames is Some ==> frames->Some_0@ == self@.graph.nodes[node_index as int].clip.frames,
    {
        match self.audio_graph.get_node_ref(node_index) {
            Some(node) => {
                let source = node.get_clip().get_frames_ref();
                let mut frames: Vec<F> = Vec::new();
                let mut i: usize = 0;
                while i < source.len()
                    invariant
                        i <= source@.len(),
                        frames@ =~= source@.take(i as int),
                    decreases source@.len() - i,
                {
                    frames.push(source[i]);
                    i += 1;
                }
                assert(source@.take(source@.len() as int) =~= source@);
                Some(frames)
            },
            None => None,
        }
    }

    /// The id of the latest node, the root aside, that goes by `name`.
    pub fn node_by_name(&self, name: &str) -> (found: Option<NodeId>)
        requires
            self.wf(),
        ensures
            match found {
                Some(at) => at < self@.graph.nodes.len() && at != self@.root
                    && self@.graph.nodes[at as int].name == Some(name@) && forall|k: int|
                    at < k < self@.graph.nodes.len() && k != self@.root ==> (
                    #[trigger] self@.graph.nodes[k]).name != Some(name@),
                None => forall|k: int|
                    0 <= k < self@.graph.nodes.len() && k != self@.root ==> (
                    #[trigger] self@.graph.nodes[k]).name != Some(name@),
            },
    {
        self.audio_graph.get_node_id(name)
    }
}

/// A name as the sequence of its characters, where there is one.
pub open spec fn name_view(name: Option<&str>) -> Option<Seq<char>> {
    match name {
        Some(text) => Some(text@),
        None => None,
    }
}

/// The number of frames in interleaved samples of one or two channels.
pub open spec fn frame_count(samples: Seq<i32>, channels: u32) -> nat {
    if channels == 1 {
        samples.len()
    } else {
        samples.len() / 2
    }
}

/// Interleaved samples of one or two channels as a mono clip at the origin.
pub open spec fn parsed_mono(samples: Seq<i32>, sample_rate: u32, channels: u32) -> ClipView<Mono> {
    ClipView {
        frames: if channels == 1 {
            mono_frames(samples)
        } else {
            averaged(stereo_frames(samples))
        },
        sample_rate,
        start: 0,
    }
}

/// Interleaved samples of one or two channels as a stereo clip at the origin.
pub open spec fn parsed_stereo(samples: Seq<i32>, sample_rate: u32, channels: u32) -> ClipView<
    Stereo,
> {
    ClipView {
        frames: if channels == 1 {
            duplicated(mono_frames(samples))
        } else {
            stereo_frames(samples)
        },
        sample_rate,
        start: 0,
    }
}

impl AudioProcessor<Mono> {
    /// What the processor makes of a clip it is handed: the clip on one channel,
    /// at the processor's rate.
    pub open spec fn taken_in(processor: ProcessorView<Mono>, clip: AudioClipEnum) -> ClipView<Mono> {
        mono_resampled(clip.as_mono(), processor.sample_rate)
    }

    /// Takes a clip in as a new node: brought to one channel, brought to the
    /// processor's rate where it runs at another, and added to the graph
    /// under `name`. Returns the id of the node.
    pub fn add_node_from_clip(&mut self, clip: AudioClipEnum, name: Option<&str>) -> (id: NodeId)
        requires
            old(self).wf(),
            old(self)@.graph.nodes.len() < u32::MAX,
            can_resample(clip.shape().0, clip.shape().1, old(self)@.sample_rate),
            clip.shape().2 + length_at(clip.shape().0, clip.shape().1, old(self)@.sample_rate)
                <= usize::MAX,
        ensures
            final(self).wf(),
            id == old(self)@.graph.nodes.len(),
            final(self)@ == (ProcessorView {
                graph: GraphView {
                    nodes: old(self)@.graph.nodes.push(
                        AudioNode::<Mono>::fresh(Self::taken_in(old(self)@, clip), name_view(name)),
                    ),
                    ..old(self)@.graph
                },
                ..old(self)@
            }),
    {
        let mut clip = match clip {
            AudioClipEnum::Mono(clip) => clip,
            AudioClipEnum::Stereo(clip) => clip.to_mono(),
        };
        if self.sample_rate != clip.get_sample_rate() {
            clip = clip.resample(self.sample_rate);
        }
        let audio_node = AudioNode::new(clip, name);
        self.audio_graph.add_data_node(audio_node)
    }

    /// Takes interleaved samples in as a new node. Any channel count but one
    /// and two is refused, and the processor is then left as it is.
    pub fn ingest(&mut self, samples: Vec<i32>, sample_rate: u32, channels: u32, name: Option<&str>)
        -> (id: Result<NodeId, AudioError>)
        requires
            old(self).wf(),
            old(self)@.graph.nodes.len() < u32::MAX,
            channels == 1 || channels == 2 ==> can_resample(
                frame_count(samples@, channels),
                sample_rate,
                old(self)@.sample_rate,
            ) && length_at(frame_count(samples@, channels), sample_rate, old(self)@.sample_rate)
                <= usize::MAX,
        ensures
            final(self).wf(),
            channels != 1 && channels != 2 ==> id == Err::<NodeId, AudioError>(
                AudioError::InvalidChannels,
            ) && *final(self) == *old(self),
            channels == 1 || channels == 2 ==> id == Ok::<NodeId, AudioError>(
                old(self)@.graph.nodes.len() as usize,
            ) && final(self)@ == (ProcessorView {
                graph: GraphView {
                    nodes: old(self)@.graph.nodes.push(
                        AudioNode::<Mono>::fresh(
                            mono_resampled(
                                parsed_mono(samples@, sample_rate, channels),
                                old(self)@.sample_rate,
                            ),
                            name_view(name),
                        ),
                    ),
                    ..old(self)@.graph
                },
                ..old(self)@
            }),
    {
        match AudioClipEnum::from_samples(samples, sample_rate, channels) {
            Ok(clip) => Ok(self.add_node_from_clip(clip, name)),
            Err(error) => Err(error),
        }
    }
}

impl AudioProcessor<Stereo> {
    /// What the processor makes of a clip it is handed: the clip on two channels,
    /// at the processor's rate.
    pub open spec fn taken_in(processor: ProcessorView<Stereo>, clip: AudioClipEnum) -> ClipView<Stereo> {
        stereo_resampled(clip.as_stereo(), processor.sample_rate)
    }

    /// Takes a clip in as a new node: brought to two channels, brought to the
    /// processor's rate where it runs at another, and added to the graph
    /// under `name`. Returns the id of the node.
    pub fn add_node_from_clip(&mut self, clip: AudioClipEnum, name: Option<&str>) -> (id: NodeId)
        requires
            old(self).wf(),
            old(self)@.graph.nodes.len() < u32::MAX,
            can_resample(clip.shape().0, clip.shape().1, old(self)@.sample_rate),
            clip.shape().2 + length_at(clip.shape().0, clip.shape().1, old(self)@.sample_rate)
                <= usize::MAX,
        ensures
            final(self).wf(),
            id == old(self)@.graph.nodes.len(),
            final(self)@ == (ProcessorView {
                graph: GraphView {
                    nodes: old(self)@.graph.nodes.push(
                        AudioNode::<Stereo>::fresh(Self::taken_in(old(self)@, clip), name_view(name)),
                    ),
                    ..old(self)@.graph
                },
                ..old(self)@
            }),
    {
        let mut clip = match clip {
            AudioClipEnum::Mono(clip) => clip.to_stereo(),
            AudioClipEnum::Stereo(clip) => clip,
        };
        if self.sample_rate != clip.get_sample_rate() {
            clip = clip.resample(self.sample_rate);
        }
        let audio_node = AudioNode::new(clip, name);
        self.audio_graph.add_data_node(audio_node)
    }

    /// Takes interleaved samples in as a new node. Any channel count but one
    /// and two is refused, and the processor is then left as it is.
    pub fn ingest(&mut self, samples: Vec<i32>, sample_rate: u32, channels: u32, name: Option<&str>)
        -> (id: Result<NodeId, AudioError>)
        requires
            old(self).wf(),
            old(self)@.graph.nodes.len() < u32::MAX,
            channels == 1 || channels == 2 ==> can_resample(
                frame_count(samples@, channels),
                sample_rate,
                old(self)@.sample_rate,
            ) && length_at(frame_count(samples@, channels), sample_rate, old(self)@.sample_rate)
                <= usize::MAX,
        ensures
            final(self).wf(),
            channels != 1 && channels != 2 ==> id == Err::<NodeId, AudioError>(
                AudioError::InvalidChannels,
            ) && *final(self) == *old(self),
            channels == 1 || channels == 2 ==> id == Ok::<NodeId, AudioError>(
                old(self)@.graph.nodes.len() as usize,
            ) && final(self)@ == (ProcessorView {
                graph: GraphView {
                    nodes: old(self)@.graph.nodes.push(
                        AudioNode::<Stereo>::fresh(
                            stereo_resampled(
                                parsed_stereo(samples@, sample_rate, channels),
                                old(self)@.sample_rate,
                            ),
                            name_view(name),
                        ),
                    ),
                    ..old(self)@.graph
                },
                ..old(self)@
            }),
    {
        match AudioClipEnum::from_samples(samples, sample_rate, channels) {
            Ok(clip) => Ok(self.add_node_from_clip(clip, name)),
            Err(error) => Err(error),
        }
    }
}

} // verus!
