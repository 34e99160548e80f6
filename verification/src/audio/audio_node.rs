use super::audio_clip::{resized, silence, AudioClip, ClipView, DEFAULT_SAMPLE_RATE};
use super::audio_edge::{combine, combined, Operation};
use super::frame::Frame;
use vstd::prelude::*;

verus! {

/// What a node is: its three clips, the modified range in clip-local
/// indices, and the start and length it goes by.
pub struct NodeView<F> {
    pub name: Option<Seq<char>>,
    /// The authoritative content of the node.
    pub clip: ClipView<F>,
    /// `clip` minus `prev_clip` over the modified range.
    pub delta_clip: ClipView<F>,
    /// `clip` as it was at the last commit.
    pub prev_clip: ClipView<F>,
    pub delta_range: Option<(nat, nat)>,
    pub clip_start: nat,
    pub clip_len: nat,
}

/// A mixing point of the graph: a clip, its last committed snapshot, and the
/// difference between the two that has yet to travel on.
pub struct AudioNode<F> {
    pub name: Option<String>,
    clip: AudioClip<F>,
    delta_clip: AudioClip<F>,
    prev_clip: AudioClip<F>,
    delta_range: Option<(usize, usize)>,
    clip_start: usize,
    clip_len: usize,
}

/// The frame that a run of frames starting at `start` holds at the absolute
/// time `t`: silence wherever the run does not reach.
pub open spec fn frame_at<F: Frame>(frames: Seq<F>, start: nat, t: int) -> F {
    if start <= t < start + frames.len() {
        frames[t - start]
    } else {
        F::spec_equilibrium()
    }
}

/// A run of frames with `left` frames of silence before it and `right` after it.
pub open spec fn extended<F: Frame>(frames: Seq<F>, left: nat, right: nat) -> Seq<F> {
    silence::<F>(left) + frames + silence::<F>(right)
}

impl<F: Frame> NodeView<F> {
    /// The three clips have one length and one start time.
    pub open spec fn shaped(self) -> bool {
        &&& self.clip.frames.len() == self.prev_clip.frames.len()
        &&& self.clip.frames.len() == self.delta_clip.frames.len()
        &&& self.clip.start == self.prev_clip.start
        &&& self.clip.start == self.delta_clip.start
    }

    /// The node is consistent: the clips are of one shape, start and length
    /// are those of the clips, the end lies on the timeline, and the modified
    /// range lies within the clip.
    pub open spec fn wf(self) -> bool {
        &&& self.shaped()
        &&& self.clip_len == self.clip.frames.len()
        &&& self.clip_start == self.clip.start
        &&& self.clip_start + self.clip_len <= usize::MAX
        &&& match self.delta_range {
            Some((lo, hi)) => lo <= hi <= self.clip_len,
            None => true,
        }
    }

    /// The absolute time one past the last frame.
    pub open spec fn end(self) -> nat {
        self.clip_start + self.clip_len
    }

    /// The content at the absolute time `t`.
    pub open spec fn current_at(self, t: int) -> F {
        frame_at(self.clip.frames, self.clip_start, t)
    }

    /// The last committed content at the absolute time `t`.
    pub open spec fn previous_at(self, t: int) -> F {
        frame_at(self.prev_clip.frames, self.clip_start, t)
    }

    /// The pending difference at the absolute time `t`.
    pub open spec fn delta_at(self, t: int) -> F {
        frame_at(self.delta_clip.frames, self.clip_start, t)
    }

    /// Nothing is pending: the difference is silence and the snapshot is the content.
    pub open spec fn settled(self) -> bool {
        &&& self.delta_clip.frames == silence::<F>(self.delta_clip.frames.len())
        &&& self.prev_clip.frames == self.clip.frames
    }

    /// The modified range in absolute time.
    pub open spec fn absolute_delta_range(self) -> Option<(nat, nat)> {
        match self.delta_range {
            Some((lo, hi)) => Some((lo + self.clip_start, hi + self.clip_start)),
            None => None,
        }
    }

    /// The node with the start time of all three clips, and its own, set to `start`.
    pub open spec fn moved_to(self, start: nat) -> Self {
        NodeView {
            clip: ClipView { start, ..self.clip },
            delta_clip: ClipView { start, ..self.delta_clip },
            prev_clip: ClipView { start, ..self.prev_clip },
            clip_start: start,
            ..self
        }
    }

    /// The node with all three clips resized.
    pub open spec fn clips_resized(self, new_size: nat, value: F) -> Self {
        NodeView {
            clip: ClipView { frames: resized(self.clip.frames, new_size, value), ..self.clip },
            delta_clip: ClipView {
                frames: resized(self.delta_clip.frames, new_size, value),
                ..self.delta_clip
            },
            prev_clip: ClipView {
                frames: resized(self.prev_clip.frames, new_size, value),
                ..self.prev_clip
            },
            ..self
        }
    }

    /// The node with silence put in front of all three clips.
    pub open spec fn clips_padded(self, amount: nat) -> Self {
        NodeView {
            clip: ClipView { frames: silence::<F>(amount) + self.clip.frames, ..self.clip },
            delta_clip: ClipView {
                frames: silence::<F>(amount) + self.delta_clip.frames,
                ..self.delta_clip
            },
            prev_clip: ClipView {
                frames: silence::<F>(amount) + self.prev_clip.frames,
                ..self.prev_clip
            },
            ..self
        }
    }

    /// The start of the smallest window that holds this node's and `parent`'s.
    pub open spec fn hull_start(self, parent: Self) -> nat {
        if self.clip_start > parent.clip_start {
            parent.clip_start
        } else {
            self.clip_start
        }
    }

    /// The end of the smallest window that holds this node's and `parent`'s.
    pub open spec fn hull_end(self, parent: Self) -> nat {
        if self.end() < parent.end() {
            parent.end()
        } else {
            self.end()
        }
    }

    /// The node extended with silence, before and after, to the smallest
    /// window that holds its own and `parent`'s, with `parent`'s window as its
    /// modified range.
    pub open spec fn normalized(self, parent: Self) -> Self {
        let start = self.hull_start(parent);
        let end = self.hull_end(parent);
        let left = (self.clip_start - start) as nat;
        let right = (end - self.end()) as nat;
        NodeView {
            name: self.name,
            clip: ClipView {
                frames: extended(self.clip.frames, left, right),
                start,
                ..self.clip
            },
            delta_clip: ClipView {
                frames: extended(self.delta_clip.frames, left, right),
                start,
                ..self.delta_clip
            },
            prev_clip: ClipView {
                frames: extended(self.prev_clip.frames, left, right),
                start,
                ..self.prev_clip
            },
            delta_range: Some(
                ((parent.clip_start - start) as nat, (parent.end() - start) as nat),
            ),
            clip_start: start,
            clip_len: (end - start) as nat,
        }
    }

    /// The modified range lies within `parent`'s window.
    pub open spec fn range_within(self, parent: Self) -> bool {
        match self.delta_range {
            Some((lo, hi)) => parent.clip_start <= lo + self.clip_start && hi + self.clip_start
                <= parent.end(),
            None => true,
        }
    }

    /// The node with `parent`'s content combined into its own, by
    /// `operation`, over the modified range.
    pub open spec fn mixed(self, operation: Operation, parent: Self) -> Self {
        match self.delta_range {
            Some((lo, hi)) => NodeView {
                clip: ClipView {
                    frames: Seq::new(
                        self.clip.frames.len(),
                        |i: int|
                            if lo <= i < hi {
                                combined(
                                    operation,
                                    self.clip.frames[i],
                                    parent.clip.frames[i + self.clip_start - parent.clip_start],
                                )
                            } else {
                                self.clip.frames[i]
                            },
                    ),
                    ..self.clip
                },
                ..self
            },
            None => self,
        }
    }

    /// The node with `parent`'s pending difference added to its content over
    /// the modified range.
    pub open spec fn delta_applied(self, parent: Self) -> Self {
        match self.delta_range {
            Some((lo, hi)) => NodeView {
                clip: ClipView {
                    frames: Seq::new(
                        self.clip.frames.len(),
                        |i: int|
                            if lo <= i < hi {
                                self.clip.frames[i].spec_add_amp(
                                    parent.delta_clip.frames[i + self.clip_start
                                        - parent.clip_start],
                                )
                            } else {
                                self.clip.frames[i]
                            },
                    ),
                    ..self.clip
                },
                ..self
            },
            None => self,
        }
    }

    /// The node with its pending difference set, over the modified range, to
    /// its content minus its snapshot.
    pub open spec fn delta_computed(self) -> Self {
        match self.delta_range {
            Some((lo, hi)) => NodeView {
                delta_clip: ClipView {
                    frames: Seq::new(
                        self.delta_clip.frames.len(),
                        |i: int|
                            if lo <= i < hi {
                                self.clip.frames[i].spec_sub_amp(self.prev_clip.frames[i])
                            } else {
                                self.delta_clip.frames[i]
                            },
                    ),
                    ..self.delta_clip
                },
                ..self
            },
            None => self,
        }
    }

    /// The node with its content as its snapshot, no pending difference and
    /// no modified range.
    pub open spec fn committed(self) -> Self {
        NodeView {
            delta_clip: ClipView {
                frames: silence::<F>(self.delta_clip.frames.len()),
                ..self.delta_clip
            },
            prev_clip: self.clip,
            delta_range: None,
            ..self
        }
    }
}

impl<F: Frame> AudioNode<F> {
    /// A node as `new` makes it around a clip.
    pub open spec fn fresh(clip: ClipView<F>, name: Option<Seq<char>>) -> NodeView<F> {
        NodeView {
            name,
            clip,
            delta_clip: ClipView {
                frames: silence::<F>(clip.frames.len()),
                sample_rate: DEFAULT_SAMPLE_RATE,
                start: clip.start,
            },
            prev_clip: clip,
            delta_range: None,
            clip_start: clip.start,
            clip_len: clip.frames.len(),
        }
    }
}

fn owned_name(name: Option<&str>) -> (owned: Option<String>)
    ensures
        owned is Some == name is Some,
        name is Some ==> owned->Some_0@ == name->Some_0@,
{
    match name {
        Some(text) => Some(text.to_owned()),
        None => None,
    }
}

impl<F> View for AudioNode<F> {
    type V = NodeView<F>;

    closed spec fn view(&self) -> NodeView<F> {
        NodeView {
            name: match self.name {
                Some(text) => Some(text@),
                None => None,
            },
            clip: self.clip@,
            delta_clip: self.delta_clip@,
            prev_clip: self.prev_clip@,
            delta_range: match self.delta_range {
                Some((lo, hi)) => Some((lo as nat, hi as nat)),
                None => None,
            },
            clip_start: self.clip_start as nat,
            clip_len: self.clip_len as nat,
        }
    }
}

impl<F: Frame> AudioNode<F> {
    /// A node around `clip`: the snapshot is the clip, nothing is pending, and
    /// the node starts where the clip starts.
    pub fn new(clip: AudioClip<F>, name: Option<&str>) -> (node: Self)
        ensures
            node@ == Self::fresh(
                clip@,
                match name {
                    Some(text) => Some(text@),
                    None => None,
                },
            ),
            node@.shaped(),
            node@.settled(),
            clip@.start + clip@.frames.len() <= usize::MAX ==> node@.wf(),
    {
        let name = owned_name(name);
        let prev_clip = clip.clone();
        let clip_len = clip.get_length();
        let clip_start = clip.get_start_time_frame();
        let mut delta_clip = AudioClip::with_capacity(clip_len);
        delta_clip.set_start_time_frame(clip_start);
        AudioNode { name, clip, delta_clip, prev_clip, delta_range: None, clip_start, clip_len }
    }

    /// A node without frames, to stand where another has been taken out.
    pub(crate) fn vacant() -> (node: Self)
        ensures
            node@.wf(),
            node@.clip_len == 0,
    {
        AudioNode::new(AudioClip::with_capacity(0), None)
    }

    pub fn get_clip(&self) -> (clip: &AudioClip<F>)
        ensures
            clip@ == self@.clip,
    {
        &self.clip
    }

    pub fn get_delta_clip(&self) -> (clip: &AudioClip<F>)
        ensures
            clip@ == self@.delta_clip,
    {
        &self.delta_clip
    }

    pub fn get_prev_clip(&self) -> (clip: &AudioClip<F>)
        ensures
            clip@ == self@.prev_clip,
    {
        &self.prev_clip
    }

    pub fn get_name(&self) -> (name: Option<&str>)
        ensures
            name is Some == self@.name is Some,
            name is Some ==> name->Some_0@ == self@.name->Some_0,
    {
        match &self.name {
            Some(text) => Some(text.as_str()),
            None => None,
        }
    }

    /// Whether the node goes by `name`.
    pub fn has_name(&self, name: &str) -> (same: bool)
        ensures
            same == (self@.name == Some(name@)),
    {
        match &self.name {
            Some(text) => {
                let wanted = name.to_owned();
                *text == wanted
            },
            None => false,
        }
    }

    pub fn set_name(&mut self, name: &str)
        ensures
            final(self)@ == (NodeView { name: Some(name@), ..old(self)@ }),
    {
        self.name = Some(name.to_owned());
    }

    pub fn get_clip_start(&self) -> (start: usize)
        ensures
            start == self@.clip_start,
    {
        self.clip_start
    }

    pub fn get_clip_len(&self) -> (len: usize)
        ensures
            len == self@.clip_len,
    {
        self.clip_len
    }

    /// Sets the length the node goes by. The clips are not touched: a caller
    /// that has resized them says so here.
    pub fn set_clip_len(&mut self, length: usize)
        ensures
            final(self)@ == (NodeView { clip_len: length as nat, ..old(self)@ }),
    {
        self.clip_len = length;
    }

    /// Moves the node, with its three clips, to start at `start_time`.
    pub fn set_clip_start(&mut self, start_time: usize)
        ensures
            final(self)@ == old(self)@.moved_to(start_time as nat),
    {
        self.clip_start = start_time;
        self.clip.set_start_time_frame(start_time);
        self.delta_clip.set_start_time_frame(start_time);
        self.prev_clip.set_start_time_frame(start_time);
    }

    pub fn get_delta_range(&self) -> (range: Option<(usize, usize)>)
        ensures
            range is Some == self@.delta_range is Some,
            range is Some ==> range->Some_0.0 == self@.delta_range->Some_0.0 && range->Some_0.1
                == self@.delta_range->Some_0.1,
    {
        self.delta_range
    }

    /// The modified range in absolute time.
    pub fn get_absolute_delta_range(&self) -> (range: Option<(usize, usize)>)
        requires
            self@.absolute_delta_range() is Some ==> self@.absolute_delta_range()->Some_0.0
                <= usize::MAX && self@.absolute_delta_range()->Some_0.1 <= usize::MAX,
        ensures
            range is Some == self@.absolute_delta_range() is Some,
            range is Some ==> range->Some_0.0 == self@.absolute_delta_range()->Some_0.0
                && range->Some_0.1 == self@.absolute_delta_range()->Some_0.1,
    {
        match self.delta_range {
            Some((start, end)) => Some((start + self.clip_start, end + self.clip_start)),
            None => None,
        }
    }

    pub fn set_delta_range(&mut self, new_range: Option<(usize, usize)>)
        ensures
            final(self)@ == (NodeView {
                delta_range: match new_range {
                    Some((lo, hi)) => Some((lo as nat, hi as nat)),
                    None => None,
                },
                ..old(self)@
            }),
    {
        self.delta_range = new_range;
    }

    /// Resizes all three clips. The length the node goes by stays as it is.
    pub fn resize_clips(&mut self, new_size: usize, value: F)
        ensures
            final(self)@ == old(self)@.clips_resized(new_size as nat, value),
    {
        self.clip.resize_frames(new_size, value);
        self.delta_clip.resize_frames(new_size, value);
        self.prev_clip.resize_frames(new_size, value);
    }

    /// Puts silence in front of all three clips. Start and length of the node
    /// stay as they are.
    pub fn add_padding_left(&mut self, padding_amount: usize)
        ensures
            final(self)@ == old(self)@.clips_padded(padding_amount as nat),
    {
        self.clip.add_padding_left(padding_amount);
        self.delta_clip.add_padding_left(padding_amount);
        self.prev_clip.add_padding_left(padding_amount);
    }

    /// Extends the node so that its window holds `parent_node`'s too, and
    /// makes `parent_node`'s window its modified range. What the node held
    /// stays where it was on the timeline; what is new is silence. Returns
    /// the overlap of the two windows in absolute time, which is
    /// `parent_node`'s window.
    pub fn normalize_clip_bounds(&mut self, parent_node: &AudioNode<F>) -> (overlap: (usize, usize))
        requires
            old(self)@.wf(),
            parent_node@.wf(),
        ensures
            final(self)@ == old(self)@.normalized(parent_node@),
            final(self)@.wf(),
            final(self)@.range_within(parent_node@),
            overlap.0 == parent_node@.clip_start,
            overlap.1 == parent_node@.end(),
            final(self)@.clip_start <= parent_node@.clip_start,
            final(self)@.end() >= parent_node@.end(),
    {
        let parent_start = parent_node.get_clip_start();
        let parent_end = parent_start + parent_node.get_clip_len();

        let mut child_start = self.clip_start;
        let mut child_len = self.clip_len;
        let mut child_end = child_start + child_len;

        if child_start > parent_start {
            let padding_amount = child_start - parent_start;
            self.add_padding_left(padding_amount);
            child_len = child_len + padding_amount;
            self.set_clip_len(child_len);
            self.set_clip_start(parent_start);
            child_start = parent_start;
        }
        if child_end < parent_end {
            let additional_len = parent_end - child_end;
            child_len = child_len + additional_len;
            self.resize_clips(child_len, F::equilibrium());
            self.set_clip_len(child_len);
            child_end = parent_end;
        }
        let overlap_start = if parent_start > child_start {
            parent_start
        } else {
            child_start
        };
        let overlap_end = if parent_end < child_end {
            parent_end
        } else {
            child_end
        };
        self.set_delta_range(Some((overlap_start - self.clip_start, overlap_end - self.clip_start)));

        proof {
            let before = old(self)@;
            let after = before.normalized(parent_node@);
            assert(self@.clip.frames =~= after.clip.frames);
            assert(self@.delta_clip.frames =~= after.delta_clip.frames);
            assert(self@.prev_clip.frames =~= after.prev_clip.frames);
        }
        (overlap_start, overlap_end)
    }

    /// Adds `parent_node`'s pending difference to the content, frame by frame,
    /// over the modified range. Nothing outside that range is written.
    pub fn apply_delta(&mut self, parent_node: &AudioNode<F>)
        requires
            old(self)@.wf(),
            parent_node@.wf(),
            old(self)@.range_within(parent_node@),
        ensures
            final(self)@ == old(self)@.delta_applied(parent_node@),
            final(self)@.wf(),
    {
        if let Some((overlap_start, overlap_end)) = self.get_absolute_delta_range() {
            let child_clip_start = self.get_clip_start();
            let parent_delta_start = parent_node.get_clip_start();
            let delta_samples = parent_node.delta_clip.get_frames_ref();
            let ghost before = self@;
            let ghost lo = before.delta_range->Some_0.0;
            let ghost hi = before.delta_range->Some_0.1;
            let ghost shift = before.clip_start - parent_node@.clip_start;

            let mut i: usize = overlap_start;
            while i < overlap_end
                invariant
                    before.wf(),
                    parent_node@.wf(),
                    before.range_within(parent_node@),
                    before.delta_range == Some((lo, hi)),
                    overlap_start == lo + before.clip_start,
                    overlap_end == hi + before.clip_start,
                    child_clip_start == before.clip_start,
                    parent_delta_start == parent_node@.clip_start,
                    shift == before.clip_start - parent_node@.clip_start,
                    delta_samples@ == parent_node@.delta_clip.frames,
                    overlap_start <= i <= overlap_end,
                    self@ == (NodeView {
                        clip: ClipView { frames: self@.clip.frames, ..before.clip },
                        ..before
                    }),
                    self@.clip.frames =~= Seq::new(
                        before.clip.frames.len(),
                        |j: int|
                            if lo <= j < i - before.clip_start {
                                before.clip.frames[j].spec_add_amp(
                                    parent_node@.delta_clip.frames[j + shift],
                                )
                            } else {
                                before.clip.frames[j]
                            },
                    ),
                decreases overlap_end - i,
            {
                let delta_index = i - parent_delta_start;
                let child_index = i - child_clip_start;
                let child_frames = self.clip.get_frames_ref();
                let mixed = child_frames[child_index].add_amp(delta_samples[delta_index]);
                let _ = self.clip.set_frame(child_index, mixed);
                i += 1;
                assert(self@.clip.frames =~= Seq::new(
                    before.clip.frames.len(),
                    |j: int|
                        if lo <= j < i - before.clip_start {
                            before.clip.frames[j].spec_add_amp(
                                parent_node@.delta_clip.frames[j + shift],
                            )
                        } else {
                            before.clip.frames[j]
                        },
                ));
            }
            assert(self@.clip.frames =~= before.delta_applied(parent_node@).clip.frames);
        }
    }

    /// Combines `parent_node`'s content into this node's, by `operation`,
    /// frame by frame over the modified range. Nothing outside that range is
    /// written, and the pending difference is left for `compute_delta`.
    pub fn mix(&mut self, operation: Operation, parent_node: &AudioNode<F>)
        requires
            old(self)@.wf(),
            parent_node@.wf(),
            old(self)@.range_within(parent_node@),
        ensures
            final(self)@ == old(self)@.mixed(operation, parent_node@),
            final(self)@.wf(),
    {
        if let Some((overlap_start, overlap_end)) = self.get_absolute_delta_range() {
            let child_start = self.get_clip_start();
            let parent_start = parent_node.get_clip_start();
            let parent_samples = parent_node.clip.get_frames_ref();
            let ghost before = self@;
            let ghost lo = before.delta_range->Some_0.0;
            let ghost hi = before.delta_range->Some_0.1;
            let ghost shift = before.clip_start - parent_node@.clip_start;

            let mut i: usize = overlap_start;
            while i < overlap_end
                invariant
                    before.wf(),
                    parent_node@.wf(),
                    before.range_within(parent_node@),
                    before.delta_range == Some((lo, hi)),
                    overlap_start == lo + before.clip_start,
                    overlap_end == hi + before.clip_start,
                    child_start == before.clip_start,
                    parent_start == parent_node@.clip_start,
                    shift == before.clip_start - parent_node@.clip_start,
                    parent_samples@ == parent_node@.clip.frames,
                    overlap_start <= i <= overlap_end,
                    self@ == (NodeView {
                        clip: ClipView { frames: self@.clip.frames, ..before.clip },
                        ..before
                    }),
                    self@.clip.frames =~= Seq::new(
                        before.clip.frames.len(),
                        |j: int|
                            if lo <= j < i - before.clip_start {
                                combined(
                                    operation,
                                    before.clip.frames[j],
                                    parent_node@.clip.frames[j + shift],
                                )
                            } else {
                                before.clip.frames[j]
                            },
                    ),
                decreases overlap_end - i,
            {
                let parent_index = i - parent_start;
                let child_index = i - child_start;
                let child_frames = self.clip.get_frames_ref();
                let mixed = combine(operation, child_frames[child_index], parent_samples[parent_index]);
                let _ = self.clip.set_frame(child_index, mixed);
                i += 1;
            }
            assert(self@.clip.frames =~= before.mixed(operation, parent_node@).clip.frames);
        }
    }

    /// Sets the pending difference, over the modified range, to the content
    /// minus the snapshot. Outside that range it stays as it is.
    pub fn compute_delta(&mut self)
        requires
            old(self)@.wf(),
        ensures
            final(self)@ == old(self)@.delta_computed(),
            final(self)@.wf(),
    {
        if let Some((start, end)) = self.get_delta_range() {
            let ghost before = self@;
            let mut i: usize = start;
            while i < end
                invariant
                    before.wf(),
                    before.delta_range == Some((start as nat, end as nat)),
                    start <= i <= end,
                    self@ == (NodeView {
                        delta_clip: ClipView {
                            frames: self@.delta_clip.frames,
                            ..before.delta_clip
                        },
                        ..before
                    }),
                    self@.delta_clip.frames =~= Seq::new(
                        before.delta_clip.frames.len(),
                        |j: int|
                            if start <= j < i {
                                before.clip.frames[j].spec_sub_amp(before.prev_clip.frames[j])
                            } else {
                                before.delta_clip.frames[j]
                            },
                    ),
                decreases end - i,
            {
                let snapshot_frames = self.prev_clip.get_frames_ref();
                let current_frames = self.clip.get_frames_ref();
                let difference = current_frames[i].sub_amp(snapshot_frames[i]);
                let _ = self.delta_clip.set_frame(i, difference);
                i += 1;
                assert(self@.delta_clip.frames =~= Seq::new(
                    before.delta_clip.frames.len(),
                    |j: int|
                        if start <= j < i {
                            before.clip.frames[j].spec_sub_amp(before.prev_clip.frames[j])
                        } else {
                            before.delta_clip.frames[j]
                        },
                ));
            }
            assert(self@.delta_clip.frames =~= before.delta_computed().delta_clip.frames);
        }
    }

    /// Makes the content the new snapshot, clears the pending difference over
    /// its whole length, and forgets the modified range.
    pub fn commit_changes(&mut self)
        ensures
            final(self)@ == old(self)@.committed(),
            old(self)@.wf() ==> final(self)@.wf(),
            old(self)@.shaped() ==> final(self)@.settled(),
    {
        self.set_delta_range(None);
        self.delta_clip.reset_clip();
        self.prev_clip = self.clip.clone();
    }
}

} // verus!
