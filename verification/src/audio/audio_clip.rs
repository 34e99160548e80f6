use super::error::AudioError;
use super::frame::{midpoint, mid_sample, Frame, Mono, Stereo};
use super::resample::{convert_samples, converted, resampled_len};
use vstd::prelude::*;

verus! {

/// The sample rate of a clip that is made without one.
pub const DEFAULT_SAMPLE_RATE: u32 = 44100;

/// The length in frames of a default clip: five seconds at the default rate.
pub const DEFAULT_CLIP_LEN: usize = 220500;

/// What a clip is: its frames, its rate in Hz, and the place of its first
/// frame on the timeline, counted in frames from the origin.
pub struct ClipView<F> {
    pub frames: Seq<F>,
    pub sample_rate: u32,
    pub start: nat,
}

/// A contiguous run of frames with a sample rate and an absolute start time.
pub struct AudioClip<F> {
    frames: Vec<F>,
    sample_rate: u32,
    start_time_frame: usize,
}

/// `n` frames of silence.
pub open spec fn silence<F: Frame>(n: nat) -> Seq<F> {
    Seq::new(n, |i: int| F::spec_equilibrium())
}

/// The frames after a resize to `new_size`: cut short, or filled up with `value`.
pub open spec fn resized<F>(frames: Seq<F>, new_size: nat, value: F) -> Seq<F> {
    if new_size <= frames.len() {
        frames.take(new_size as int)
    } else {
        frames + Seq::new((new_size - frames.len()) as nat, |i: int| value)
    }
}

/// Interleaved samples read as mono frames.
pub open spec fn mono_frames(samples: Seq<i32>) -> Seq<Mono> {
    Seq::new(samples.len(), |i: int| [samples[i]])
}

/// Interleaved samples read as stereo frames, pair by pair; a last sample
/// without a partner is left out.
pub open spec fn stereo_frames(samples: Seq<i32>) -> Seq<Stereo> {
    Seq::new(samples.len() / 2, |i: int| [samples[2 * i], samples[2 * i + 1]])
}

/// Two channels of equal length, frame by frame.
pub open spec fn zipped(left: Seq<i32>, right: Seq<i32>) -> Seq<Stereo> {
    Seq::new(left.len(), |i: int| [left[i], right[i]])
}

/// One channel of a sequence of frames.
pub open spec fn channel<const N: usize>(frames: Seq<[i32; N]>, k: int) -> Seq<i32> {
    Seq::new(frames.len(), |i: int| frames[i][k])
}

/// Each mono frame on both channels.
pub open spec fn duplicated(frames: Seq<Mono>) -> Seq<Stereo> {
    Seq::new(frames.len(), |i: int| [frames[i][0], frames[i][0]])
}

/// Each stereo frame as the midpoint of its two channels.
pub open spec fn averaged(frames: Seq<Stereo>) -> Seq<Mono> {
    Seq::new(frames.len(), |i: int| [midpoint(frames[i][0], frames[i][1])])
}

/// A clip of `len` frames at `rate` can be taken to `target`: the rates
/// agree, or `rate` is above zero and the new length is one a clip can have.
pub open spec fn can_resample(len: nat, rate: u32, target: u32) -> bool {
    rate != target ==> rate > 0 && resampled_len(len, rate, target) <= usize::MAX
}

/// The length of a clip of `len` frames at `rate` once it is taken to `target`.
pub open spec fn length_at(len: nat, rate: u32, target: u32) -> nat {
    if rate == target {
        len
    } else {
        resampled_len(len, rate, target)
    }
}

/// A mono clip taken to the rate `target`: itself where it runs at that rate,
/// else its channel converted. The start time stays.
pub open spec fn mono_resampled(clip: ClipView<Mono>, target: u32) -> ClipView<Mono> {
    if clip.sample_rate == target {
        clip
    } else {
        ClipView {
            frames: mono_frames(converted(channel(clip.frames, 0), clip.sample_rate, target)),
            sample_rate: target,
            start: clip.start,
        }
    }
}

/// A stereo clip taken to the rate `target`: itself where it runs at that
/// rate, else each of its channels converted. The start time stays.
pub open spec fn stereo_resampled(clip: ClipView<Stereo>, target: u32) -> ClipView<Stereo> {
    if clip.sample_rate == target {
        clip
    } else {
        ClipView {
            frames: zipped(
                converted(channel(clip.frames, 0), clip.sample_rate, target),
                converted(channel(clip.frames, 1), clip.sample_rate, target),
            ),
            sample_rate: target,
            start: clip.start,
        }
    }
}

fn silent_frames<F: Frame>(n: usize) -> (frames: Vec<F>)
    ensures
        frames@ == silence::<F>(n as nat),
{
    let mut frames: Vec<F> = Vec::new();
    let mut i: usize = 0;
    while i < n
        invariant
            i <= n,
            frames@ =~= silence::<F>(i as nat),
        decreases n - i,
    {
        frames.push(F::equilibrium());
        i += 1;
    }
    frames
}

fn copied_frames<F: Copy>(source: &Vec<F>) -> (frames: Vec<F>)
    ensures
        frames@ == source@,
{
    let mut frames: Vec<F> = Vec::new();
    let mut i: usize = 0;
    while i < source.len()
        invariant
            i <= source@.len(),
            frames@ =~= source@.take(i as int),
        decreases source@.len() - i,
    {
        frames.push(source[i]);
        i += 1;
    }
    assert(source@.take(source@.len() as int) =~= source@);
    frames
}

fn channel_of<const N: usize>(frames: &Vec<[i32; N]>, k: usize) -> (samples: Vec<i32>)
    requires
        k < N,
    ensures
        samples@ == channel(frames@, k as int),
{
    let mut samples: Vec<i32> = Vec::new();
    let mut i: usize = 0;
    while i < frames.len()
        invariant
            k < N,
            i <= frames@.len(),
            samples@ =~= channel(frames@.take(i as int), k as int),
        decreases frames@.len() - i,
    {
        let frame = frames[i];
        samples.push(frame[k]);
        i += 1;
    }
    assert(frames@.take(frames@.len() as int) =~= frames@);
    samples
}

impl<F> View for AudioClip<F> {
    type V = ClipView<F>;

    closed spec fn view(&self) -> ClipView<F> {
        ClipView {
            frames: self.frames@,
            sample_rate: self.sample_rate,
            start: self.start_time_frame as nat,
        }
    }
}

impl<F: Frame> Clone for AudioClip<F> {
    fn clone(&self) -> (copy: Self)
        ensures
            copy@ == self@,
    {
        AudioClip {
            frames: copied_frames(&self.frames),
            sample_rate: self.sample_rate,
            start_time_frame: self.start_time_frame,
        }
    }
}

impl<F: Frame> AudioClip<F> {
    /// What a default clip is.
    pub open spec fn default_view() -> ClipView<F> {
        ClipView {
            frames: silence::<F>(DEFAULT_CLIP_LEN as nat),
            sample_rate: DEFAULT_SAMPLE_RATE,
            start: 0,
        }
    }

    /// Five seconds of silence at the default rate, starting at the origin.
    pub fn default() -> (clip: Self)
        ensures
            clip@ == Self::default_view(),
    {
        AudioClip {
            frames: silent_frames(DEFAULT_CLIP_LEN),
            sample_rate: DEFAULT_SAMPLE_RATE,
            start_time_frame: 0,
        }
    }

    /// `capacity` frames of silence at the default rate, starting at the origin.
    pub fn with_capacity(capacity: usize) -> (clip: Self)
        ensures
            clip@ == (ClipView {
                frames: silence::<F>(capacity as nat),
                sample_rate: DEFAULT_SAMPLE_RATE,
                start: 0,
            }),
    {
        AudioClip {
            frames: silent_frames(capacity),
            sample_rate: DEFAULT_SAMPLE_RATE,
            start_time_frame: 0,
        }
    }

    /// A clip of the given frames, rate and start.
    pub fn from_frames(frames: Vec<F>, sample_rate: u32, start_time_frame: usize) -> (clip: Self)
        ensures
            clip@ == (ClipView { frames: frames@, sample_rate, start: start_time_frame as nat }),
    {
        AudioClip { frames, sample_rate, start_time_frame }
    }

    pub fn get_frames_ref(&self) -> (frames: &[F])
        ensures
            frames@ == self@.frames,
    {
        self.frames.as_slice()
    }

    /// The frames, to be written in place. Their number cannot change.
    pub fn get_frames_mut(&mut self) -> (frames: &mut [F])
        ensures
            frames@ == old(self)@.frames,
            final(self)@ == (ClipView { frames: final(frames)@, ..old(self)@ }),
    {
        self.frames.as_mut_slice()
    }

    /// The frame at `idx`, or nothing where the clip has ended.
    pub fn get_frame(&self, idx: usize) -> (frame: Option<F>)
        ensures
            frame == (if idx < self@.frames.len() {
                Some(self@.frames[idx as int])
            } else {
                None
            }),
    {
        if idx < self.frames.len() {
            Some(self.frames[idx])
        } else {
            None
        }
    }

    pub fn get_sample_rate(&self) -> (rate: u32)
        ensures
            rate == self@.sample_rate,
    {
        self.sample_rate
    }

    pub fn get_start_time_frame(&self) -> (start: usize)
        ensures
            start == self@.start,
    {
        self.start_time_frame
    }

    pub fn get_length(&self) -> (len: usize)
        ensures
            len == self@.frames.len(),
    {
        self.frames.len()
    }

    /// Writes one frame. An index past the end is refused and nothing changes.
    pub fn set_frame(&mut self, idx: usize, val: F) -> (done: Result<(), AudioError>)
        ensures
            idx < old(self)@.frames.len() ==> done == Ok::<(), AudioError>(()) && final(self)@ == (ClipView {
                frames: old(self)@.frames.update(idx as int, val),
                ..old(self)@
            }),
            idx >= old(self)@.frames.len() ==> done == Err::<(), AudioError>(AudioError::OutOfBounds)
                && final(self)@ == old(self)@,
    {
        if idx < self.frames.len() {
            self.frames[idx] = val;
            Ok(())
        } else {
            Err(AudioError::OutOfBounds)
        }
    }

    pub fn set_start_time_frame(&mut self, sample_idx: usize)
        ensures
            final(self)@ == (ClipView { start: sample_idx as nat, ..old(self)@ }),
    {
        self.start_time_frame = sample_idx;
    }

    /// Cuts the clip to `new_size` frames, or fills it up to that length with
    /// `value`. The start time stays.
    pub fn resize_frames(&mut self, new_size: usize, value: F)
        ensures
            final(self)@ == (ClipView {
                frames: resized(old(self)@.frames, new_size as nat, value),
                ..old(self)@
            }),
    {
        if new_size <= self.frames.len() {
            self.frames.truncate(new_size);
        } else {
            let ghost before = self.frames@;
            let mut i: usize = self.frames.len();
            while i < new_size
                invariant
                    before.len() <= i <= new_size,
                    self.frames@ =~= before + Seq::new((i - before.len()) as nat, |j: int| value),
                    self.sample_rate == old(self).sample_rate,
                    self.start_time_frame == old(self).start_time_frame,
                decreases new_size - i,
            {
                self.frames.push(value);
                i += 1;
            }
        }
    }

    /// Puts `padding_frames` frames of silence in front of the clip. The start
    /// time stays as it is: whoever pads decides what the new start is.
    pub fn add_padding_left(&mut self, padding_frames: usize)
        ensures
            final(self)@ == (ClipView {
                frames: silence::<F>(padding_frames as nat) + old(self)@.frames,
                ..old(self)@
            }),
    {
        if padding_frames == 0 {
            assert(silence::<F>(0) + self.frames@ =~= self.frames@);
            return ;
        }
        let mut padded: Vec<F> = silent_frames(padding_frames);
        let ghost head = padded@;
        let mut i: usize = 0;
        while i < self.frames.len()
            invariant
                i <= self.frames@.len(),
                padded@ =~= head + self.frames@.take(i as int),
                self.frames == old(self).frames,
                self.sample_rate == old(self).sample_rate,
                self.start_time_frame == old(self).start_time_frame,
            decreases self.frames@.len() - i,
        {
            padded.push(self.frames[i]);
            i += 1;
        }
        assert(self.frames@.take(self.frames@.len() as int) =~= self.frames@);
        self.frames = padded;
    }

    /// Overwrites every frame with silence. Length, rate and start stay.
    pub fn reset_clip(&mut self)
        ensures
            final(self)@ == (ClipView {
                frames: silence::<F>(old(self)@.frames.len()),
                ..old(self)@
            }),
    {
        self.frames = silent_frames(self.frames.len());
    }
}

impl AudioClip<Mono> {
    /// A mono clip of the given samples, one frame each, starting at the origin.
    pub fn new(samples: Vec<i32>, sample_rate: u32) -> (clip: Self)
        ensures
            clip@ == (ClipView { frames: mono_frames(samples@), sample_rate, start: 0 }),
    {
        let mut frames: Vec<Mono> = Vec::new();
        let mut i: usize = 0;
        while i < samples.len()
            invariant
                i <= samples@.len(),
                frames@ =~= mono_frames(samples@.take(i as int)),
            decreases samples@.len() - i,
        {
            frames.push([samples[i]]);
            i += 1;
        }
        assert(samples@.take(samples@.len() as int) =~= samples@);
        AudioClip { frames, sample_rate, start_time_frame: 0 }
    }

    /// The same clip on two channels, each a copy of the one.
    pub fn to_stereo(&self) -> (clip: AudioClip<Stereo>)
        ensures
            clip@ == (ClipView {
                frames: duplicated(self@.frames),
                sample_rate: self@.sample_rate,
                start: self@.start,
            }),
    {
        let mut frames: Vec<Stereo> = Vec::new();
        let mut i: usize = 0;
        while i < self.frames.len()
            invariant
                i <= self.frames@.len(),
                frames@ =~= duplicated(self.frames@.take(i as int)),
            decreases self.frames@.len() - i,
        {
            let frame = self.frames[i];
            frames.push([frame[0], frame[0]]);
            i += 1;
        }
        assert(self.frames@.take(self.frames@.len() as int) =~= self.frames@);
        AudioClip { frames, sample_rate: self.sample_rate, start_time_frame: self.start_time_frame }
    }

    /// The clip at another sample rate: itself where the rate is already
    /// `sample_rate`, else its channel converted by linear interpolation, with
    /// `len * sample_rate / rate` frames, rounded up. The start time stays.
    pub fn resample(&self, sample_rate: u32) -> (clip: Self)
        requires
            can_resample(self@.frames.len(), self@.sample_rate, sample_rate),
        ensures
            clip@ == mono_resampled(self@, sample_rate),
            clip@.frames.len() == length_at(self@.frames.len(), self@.sample_rate, sample_rate),
    {
        if self.sample_rate == sample_rate {
            return self.clone();
        }
        let samples = channel_of(&self.frames, 0);
        let converted = convert_samples(&samples, self.sample_rate, sample_rate);
        let clip = AudioClip::<Mono>::new(converted, sample_rate);
        AudioClip { frames: clip.frames, sample_rate, start_time_frame: self.start_time_frame }
    }
}

impl AudioClip<Stereo> {
    /// A stereo clip of the given interleaved samples, left before right,
    /// starting at the origin. A last sample without a partner is left out.
    pub fn new(samples: Vec<i32>, sample_rate: u32) -> (clip: Self)
        ensures
            clip@ == (ClipView { frames: stereo_frames(samples@), sample_rate, start: 0 }),
    {
        let pairs: usize = samples.len() / 2;
        let mut frames: Vec<Stereo> = Vec::new();
        let mut i: usize = 0;
        while i < pairs
            invariant
                i <= pairs,
                pairs == samples@.len() / 2,
                samples@.len() <= usize::MAX,
                frames@.len() == i,
                forall|j: int| 0 <= j < i ==> frames@[j] == stereo_frames(samples@)[j],
            decreases pairs - i,
        {
            assert(2 * i + 1 < samples@.len());
            frames.push([samples[2 * i], samples[2 * i + 1]]);
            i += 1;
        }
        assert(frames@ =~= stereo_frames(samples@));
        AudioClip { frames, sample_rate, start_time_frame: 0 }
    }

    /// The same clip on one channel, each frame the midpoint of left and right.
    pub fn to_mono(&self) -> (clip: AudioClip<Mono>)
        ensures
            clip@ == (ClipView {
                frames: averaged(self@.frames),
                sample_rate: self@.sample_rate,
                start: self@.start,
            }),
    {
        let mut frames: Vec<Mono> = Vec::new();
        let mut i: usize = 0;
        while i < self.frames.len()
            invariant
                i <= self.frames@.len(),
                frames@ =~= averaged(self.frames@.take(i as int)),
            decreases self.frames@.len() - i,
        {
            let frame = self.frames[i];
            frames.push([mid_sample(frame[0], frame[1])]);
            i += 1;
        }
        assert(self.frames@.take(self.frames@.len() as int) =~= self.frames@);
        AudioClip { frames, sample_rate: self.sample_rate, start_time_frame: self.start_time_frame }
    }

    /// The clip at another sample rate: itself where the rate is already
    /// `sample_rate`, else each of its channels converted by linear
    /// interpolation, with `len * sample_rate / rate` frames, rounded up. The
    /// start time stays.
    pub fn resample(&self, sample_rate: u32) -> (clip: Self)
        requires
            can_resample(self@.frames.len(), self@.sample_rate, sample_rate),
        ensures
            clip@ == stereo_resampled(self@, sample_rate),
            clip@.frames.len() == length_at(self@.frames.len(), self@.sample_rate, sample_rate),
    {
        if self.sample_rate == sample_rate {
            return self.clone();
        }
        let left = convert_samples(&channel_of(&self.frames, 0), self.sample_rate, sample_rate);
        let right = convert_samples(&channel_of(&self.frames, 1), self.sample_rate, sample_rate);
        let mut frames: Vec<Stereo> = Vec::new();
        let mut i: usize = 0;
        while i < left.len()
            invariant
                i <= left@.len(),
                left@.len() == right@.len(),
                frames@ =~= zipped(left@.take(i as int), right@),
            decreases left@.len() - i,
        {
            frames.push([left[i], right[i]]);
            i += 1;
        }
        assert(left@.take(left@.len() as int) =~= left@);
        AudioClip { frames, sample_rate, start_time_frame: self.start_time_frame }
    }
}

/// A clip of either width, as it comes from a decoder or a recorder.
pub enum AudioClipEnum {
    Mono(AudioClip<Mono>),
    Stereo(AudioClip<Stereo>),
}

impl AudioClipEnum {
    /// The clip on one channel: itself, or the midpoint of its two channels.
    pub open spec fn as_mono(self) -> ClipView<Mono> {
        match self {
            AudioClipEnum::Mono(clip) => clip@,
            AudioClipEnum::Stereo(clip) => ClipView {
                frames: averaged(clip@.frames),
                sample_rate: clip@.sample_rate,
                start: clip@.start,
            },
        }
    }

    /// The clip on two channels: itself, or its one channel on both.
    pub open spec fn as_stereo(self) -> ClipView<Stereo> {
        match self {
            AudioClipEnum::Mono(clip) => ClipView {
                frames: duplicated(clip@.frames),
                sample_rate: clip@.sample_rate,
                start: clip@.start,
            },
            AudioClipEnum::Stereo(clip) => clip@,
        }
    }

    /// The number of frames, the rate and the start of the clip.
    pub open spec fn shape(self) -> (nat, u32, nat) {
        match self {
            AudioClipEnum::Mono(clip) => (clip@.frames.len(), clip@.sample_rate, clip@.start),
            AudioClipEnum::Stereo(clip) => (clip@.frames.len(), clip@.sample_rate, clip@.start),
        }
    }

    /// A clip of `channels` channels from interleaved samples. Any channel
    /// count but one and two is refused.
    pub fn from_samples(samples: Vec<i32>, sample_rate: u32, channels: u32) -> (clip: Result<
        Self,
        AudioError,
    >)
        ensures
            channels == 1 ==> clip is Ok && clip->Ok_0 is Mono && clip->Ok_0->Mono_0@ == (ClipView {
                frames: mono_frames(samples@),
                sample_rate,
                start: 0,
            }),
            channels == 2 ==> clip is Ok && clip->Ok_0 is Stereo && clip->Ok_0->Stereo_0@ == (
            ClipView { frames: stereo_frames(samples@), sample_rate, start: 0 }),
            channels != 1 && channels != 2 ==> clip is Err && clip->Err_0
                == AudioError::InvalidChannels,
    {
        if channels == 1 {
            Ok(AudioClipEnum::Mono(AudioClip::<Mono>::new(samples, sample_rate)))
        } else if channels == 2 {
            Ok(AudioClipEnum::Stereo(AudioClip::<Stereo>::new(samples, sample_rate)))
        } else {
            Err(AudioError::InvalidChannels)
        }
    }

    /// A stereo clip without frames at the default rate.
    pub fn default() -> (clip: Self)
        ensures
            clip is Stereo,
            clip->Stereo_0@ == (ClipView {
                frames: Seq::<Stereo>::empty(),
                sample_rate: DEFAULT_SAMPLE_RATE,
                start: 0,
            }),
    {
        let clip = AudioClip::<Stereo>::new(Vec::new(), DEFAULT_SAMPLE_RATE);
        assert(clip@.frames =~= Seq::<Stereo>::empty());
        AudioClipEnum::Stereo(clip)
    }
}

/// A mono clip taken to stereo and back is the clip it was.
pub proof fn lemma_mono_stereo_mono(frames: Seq<Mono>)
    ensures
        averaged(duplicated(frames)) == frames,
{
    assert forall|i: int| 0 <= i < frames.len() implies averaged(duplicated(frames))[i]
        == frames[i] by {
        assert(midpoint(frames[i][0], frames[i][0]) == frames[i][0]);
        assert(averaged(duplicated(frames))[i]@ =~= frames[i]@);
    }
    assert(averaged(duplicated(frames)) =~= frames);
}

} // verus!
