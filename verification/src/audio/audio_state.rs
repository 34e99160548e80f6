use super::audio_clip::{
    can_resample, length_at, mono_resampled, resized, stereo_resampled, AudioClip, AudioClipEnum,
};
use super::frame::{Frame, Mono, Stereo};
use vstd::prelude::*;

verus! {

/// The number of frames of output that make one picture of a display that
/// shows thirty pictures a second.
pub const FRAME_RATE: u32 = 30;

/// What a display draws the samples over.
#[derive(Clone, Copy, Debug, PartialEq, Eq, Structural)]
pub enum SpectrumType {
    Time,
    Frequency,
}

/// What a display has to know of the mix: how many frames it has, and how
/// many of them make one picture.
#[derive(Clone, Copy, Debug, PartialEq, Eq, Structural)]
pub struct AudioStateMetatada {
    pub spectrum_type: SpectrumType,
    pub size: usize,
    pub slice_size: usize,
}

/// The number of frames at `sample_rate` that one of `frame_rate` pictures a
/// second takes up, rounded down.
pub fn compute_sice_size(sample_rate: u32, frame_rate: u32) -> (size: usize)
    requires
        frame_rate > 0,
    ensures
        size == sample_rate / frame_rate,
{
    (sample_rate / frame_rate) as usize
}

impl AudioStateMetatada {
    /// The description of an empty mix over time.
    pub fn new(sample_rate: u32) -> (metadata: Self)
        ensures
            metadata == (AudioStateMetatada {
                spectrum_type: SpectrumType::Time,
                size: 0,
                slice_size: (sample_rate / FRAME_RATE) as usize,
            }),
    {
        AudioStateMetatada {
            spectrum_type: SpectrumType::Time,
            size: 0,
            slice_size: compute_sice_size(sample_rate, FRAME_RATE),
        }
    }

    pub fn update_metadata(&mut self, new_size: usize)
        ensures
            *final(self) == (AudioStateMetatada { size: new_size, ..*old(self) }),
    {
        self.size = new_size;
    }
}

/// A flat mix: every clip that is added is summed into one run of samples at
/// the place where the clip starts.
pub struct AudioState<F> {
    pub samples: Vec<F>,
    pub sample_rate: u32,
    pub index: usize,
    pub audio_clips: Vec<AudioClip<F>>,
    pub audio_metadata: AudioStateMetatada,
}

/// A mix with a run of frames summed into it from `start` on. The mix is
/// filled up with silence where it does not reach that far.
pub open spec fn mixed_in<F: Frame>(samples: Seq<F>, frames: Seq<F>, start: nat) -> Seq<F> {
    let len = if start + frames.len() > samples.len() {
        start + frames.len()
    } else {
        samples.len()
    };
    Seq::new(
        len,
        |i: int|
            {
                let held = if i < samples.len() {
                    samples[i]
                } else {
                    F::spec_equilibrium()
                };
                if start <= i < start + frames.len() {
                    held.spec_add_amp(frames[i - start])
                } else {
                    held
                }
            },
    )
}

impl<F: Frame> AudioState<F> {
    /// An empty mix at `sample_rate`.
    pub fn new(sample_rate: u32) -> (state: Self)
        ensures
            state.samples@.len() == 0,
            state.sample_rate == sample_rate,
            state.index == 0,
            state.audio_clips@.len() == 0,
            state.audio_metadata == (AudioStateMetatada {
                spectrum_type: SpectrumType::Time,
                size: 0,
                slice_size: (sample_rate / FRAME_RATE) as usize,
            }),
    {
        AudioState {
            samples: Vec::new(),
            sample_rate,
            index: 0,
            audio_clips: Vec::new(),
            audio_metadata: AudioStateMetatada::new(sample_rate),
        }
    }

    /// Moves on by one sample and returns the sample that is now current, or
    /// nothing where the mix has ended.
    pub fn get_sample(&mut self) -> (sample: Option<F>)
        requires
            old(self).index < usize::MAX,
        ensures
            final(self).index == old(self).index + 1,
            final(self).samples == old(self).samples,
            final(self).sample_rate == old(self).sample_rate,
            final(self).audio_clips == old(self).audio_clips,
            final(self).audio_metadata == old(self).audio_metadata,
            sample == (if old(self).index + 1 < old(self).samples@.len() {
                Some(old(self).samples@[old(self).index + 1])
            } else {
                None
            }),
    {
        self.index += 1;
        if self.index >= self.samples.len() {
            None
        } else {
            Some(self.samples[self.index])
        }
    }

    /// Sums a clip into the mix at the place where the clip starts, keeps
    /// the clip, and records the new length of the mix.
    pub fn add_clip_to_samples(&mut self, clip: AudioClip<F>)
        requires
            clip@.start + clip@.frames.len() <= usize::MAX,
        ensures
            final(self).samples@ == mixed_in(old(self).samples@, clip@.frames, clip@.start),
            final(self).audio_clips@ == old(self).audio_clips@.push(clip),
            final(self).audio_metadata == (AudioStateMetatada {
                size: final(self).samples@.len() as usize,
                ..old(self).audio_metadata
            }),
            final(self).sample_rate == old(self).sample_rate,
            final(self).index == old(self).index,
    {
        let s = clip.get_start_time_frame();
        let l = clip.get_length();
        let end = s + l;
        let ghost before = self.samples@;
        if end > self.samples.len() {
            let mut i: usize = self.samples.len();
            while i < end
                invariant
                    before.len() <= i <= end,
                    self.samples@ =~= resized(before, i as nat, F::spec_equilibrium()),
                    self.audio_clips == old(self).audio_clips,
                    self.audio_metadata == old(self).audio_metadata,
                    self.sample_rate == old(self).sample_rate,
                    self.index == old(self).index,
                decreases end - i,
            {
                self.samples.push(F::equilibrium());
                i += 1;
            }
        }
        let ghost filled = self.samples@;
        let clip_samples = clip.get_frames_ref();
        let mut i: usize = s;
        while i < end
            invariant
                s <= i <= end,
                end == s + l,
                end <= filled.len(),
                clip_samples@ == clip@.frames,
                l == clip@.frames.len(),
                self.samples@ =~= Seq::new(
                    filled.len(),
                    |j: int|
                        if s <= j < i {
                            filled[j].spec_add_amp(clip@.frames[j - s])
                        } else {
                            filled[j]
                        },
                ),
                self.audio_clips == old(self).audio_clips,
                self.audio_metadata == old(self).audio_metadata,
                self.sample_rate == old(self).sample_rate,
                self.index == old(self).index,
            decreases end - i,
        {
            let mixed = self.samples[i].add_amp(clip_samples[i - s]);
            self.samples[i] = mixed;
            i += 1;
        }
        assert(self.samples@ =~= mixed_in(before, clip@.frames, clip@.start));
        self.audio_clips.push(clip);
        self.update_metadata();
    }

    /// Records the length of the mix in its description.
    pub fn update_metadata(&mut self)
        ensures
            final(self).audio_metadata == (AudioStateMetatada {
                size: old(self).samples@.len() as usize,
                ..old(self).audio_metadata
            }),
            final(self).samples == old(self).samples,
            final(self).sample_rate == old(self).sample_rate,
            final(self).index == old(self).index,
            final(self).audio_clips == old(self).audio_clips,
    {
        self.audio_metadata.update_metadata(self.samples.len());
    }

    pub fn get_metadata(&self) -> (metadata: AudioStateMetatada)
        ensures
            metadata == self.audio_metadata,
    {
        self.audio_metadata
    }
}

impl AudioState<Mono> {
    /// Sums a clip of either width into the mix, brought to one channel and
    /// to the rate of the mix first.
    pub fn add_clip(&mut self, clip: AudioClipEnum)
        requires
            can_resample(clip.shape().0, clip.shape().1, old(self).sample_rate),
            clip.shape().2 + length_at(clip.shape().0, clip.shape().1, old(self).sample_rate)
                <= usize::MAX,
        ensures
            final(self).samples@ == mixed_in(
                old(self).samples@,
                mono_resampled(clip.as_mono(), old(self).sample_rate).frames,
                clip.shape().2,
            ),
            final(self).audio_clips@.len() == old(self).audio_clips@.len() + 1,
            final(self).audio_clips@.last()@ == mono_resampled(
                clip.as_mono(),
                old(self).sample_rate,
            ),
            final(self).sample_rate == old(self).sample_rate,
            final(self).index == old(self).index,
    {
        let mut clip = match clip {
            AudioClipEnum::Mono(clip) => clip,
            AudioClipEnum::Stereo(clip) => clip.to_mono(),
        };
        if self.sample_rate != clip.get_sample_rate() {
            clip = clip.resample(self.sample_rate);
        }
        self.add_clip_to_samples(clip);
    }
}

impl AudioState<Stereo> {
    /// Sums a clip of either width into the mix, brought to two channels and
    /// to the rate of the mix first.
    pub fn add_clip(&mut self, clip: AudioClipEnum)
        requires
            can_resample(clip.shape().0, clip.shape().1, old(self).sample_rate),
            clip.shape().2 + length_at(clip.shape().0, clip.shape().1, old(self).sample_rate)
                <= usize::MAX,
        ensures
            final(self).samples@ == mixed_in(
                old(self).samples@,
                stereo_resampled(clip.as_stereo(), old(self).sample_rate).frames,
                clip.shape().2,
            ),
            final(self).audio_clips@.len() == old(self).audio_clips@.len() + 1,
            final(self).audio_clips@.last()@ == stereo_resampled(
                clip.as_stereo(),
                old(self).sample_rate,
            ),
            final(self).sample_rate == old(self).sample_rate,
            final(self).index == old(self).index,
    {
        let mut clip = match clip {
            AudioClipEnum::Mono(clip) => clip.to_stereo(),
            AudioClipEnum::Stereo(clip) => clip,
        };
        if self.sample_rate != clip.get_sample_rate() {
            clip = clip.resample(self.sample_rate);
        }
        self.add_clip_to_samples(clip);
    }
}

} // verus!
