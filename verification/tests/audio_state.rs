use audio_general::audio::audio_clip::{AudioClip, AudioClipEnum};
use audio_general::audio::audio_state::{
    compute_sice_size, AudioState, AudioStateMetatada, SpectrumType,
};
use audio_general::audio::frame::{Mono, Stereo};

#[test]
fn test_add_clip_to_samples_mono_start_2() {
    let sample_rate = 44100;
    let mut audio_state = AudioState::<Mono>::new(sample_rate);
    audio_state.samples = vec![[0], [1], [2], [3], [4]];
    let mut clip = AudioClip::<Mono>::new(vec![99, 99, 99, 99], sample_rate);
    clip.set_start_time_frame(2);
    audio_state.add_clip_to_samples(clip);
    assert_eq!(
        audio_state.samples,
        vec![[0], [1], [101], [102], [103], [99]]
    );
}

#[test]
fn test_add_clip_to_samples_mono_start_0() {
    let sample_rate = 44100;
    let mut audio_state = AudioState::<Mono>::new(sample_rate);
    audio_state.samples = vec![[0], [1], [2], [3], [4]];
    let mut clip = AudioClip::<Mono>::new(vec![99, 99, 99, 99], sample_rate);
    clip.set_start_time_frame(0);
    audio_state.add_clip_to_samples(clip);
    assert_eq!(
        audio_state.samples,
        vec![[99], [100], [101], [102], [4]]
    );
}

#[test]
fn test_add_clip_to_samples_mono_start_9() {
    let sample_rate = 44100;
    let mut audio_state = AudioState::<Mono>::new(sample_rate);
    audio_state.samples = vec![[0], [1], [2], [3], [4]];
    let mut clip = AudioClip::<Mono>::new(vec![99, 99, 99, 99], sample_rate);
    clip.set_start_time_frame(9);
    audio_state.add_clip_to_samples(clip);
    assert_eq!(
        audio_state.samples,
        vec![
            [0],
            [1],
            [2],
            [3],
            [4],
            [0],
            [0],
            [0],
            [0],
            [99],
            [99],
            [99],
            [99]
        ]
    );
}

#[test]
fn test_add_clip_to_samples_stereo_start_2() {
    let sample_rate = 44100;
    let mut audio_state = AudioState::<Stereo>::new(sample_rate);
    audio_state.samples = vec![[0, 0], [1, 1], [2, 2], [3, 3], [4, 4]];
    let v: Vec<i32> = vec![99, 99, 99, 99, 99, 99, 99, 99];
    let mut clip = AudioClip::<Stereo>::new(v, sample_rate);
    clip.set_start_time_frame(2);
    audio_state.add_clip_to_samples(clip);
    assert_eq!(
        audio_state.samples,
        vec![
            [0, 0],
            [1, 1],
            [101, 101],
            [102, 102],
            [103, 103],
            [99, 99]
        ]
    );
}

#[test]
fn test_add_clip_to_samples_stereo_start_0() {
    let sample_rate = 44100;
    let mut audio_state = AudioState::<Stereo>::new(sample_rate);
    audio_state.samples = vec![[0, 0], [1, 1], [2, 2], [3, 3], [4, 4]];
    let v: Vec<i32> = vec![99, 99, 99, 99, 99, 99, 99, 99];
    let mut clip = AudioClip::<Stereo>::new(v, sample_rate);
    clip.set_start_time_frame(0);
    audio_state.add_clip_to_samples(clip);
    assert_eq!(
        audio_state.samples,
        vec![
            [99, 99],
            [100, 100],
            [101, 101],
            [102, 102],
            [4, 4]
        ]
    );
}

#[test]
fn test_add_clip_to_samples_stereo_start_9() {
    let sample_rate = 44100;
    let mut audio_state = AudioState::<Stereo>::new(sample_rate);
    audio_state.samples = vec![[0, 0], [1, 1], [2, 2], [3, 3], [4, 4]];
    let v: Vec<i32> = vec![99, 99, 99, 99, 99, 99, 99, 99];
    let mut clip = AudioClip::<Stereo>::new(v, sample_rate);
    clip.set_start_time_frame(9);
    audio_state.add_clip_to_samples(clip);
    assert_eq!(
        audio_state.samples,
        vec![
            [0, 0],
            [1, 1],
            [2, 2],
            [3, 3],
            [4, 4],
            [0, 0],
            [0, 0],
            [0, 0],
            [0, 0],
            [99, 99],
            [99, 99],
            [99, 99],
            [99, 99]
        ]
    );
}

#[test]
fn a_new_mix_is_empty_and_knows_its_slice() {
    let state = AudioState::<Mono>::new(44100);
    assert!(state.samples.is_empty());
    assert!(state.audio_clips.is_empty());
    assert_eq!(state.index, 0);
    assert_eq!(
        state.get_metadata(),
        AudioStateMetatada { spectrum_type: SpectrumType::Time, size: 0, slice_size: 1470 }
    );
    assert_eq!(compute_sice_size(44100, 60), 735);
    assert_eq!(compute_sice_size(10, 3), 3);
}

#[test]
fn get_sample_moves_on_before_it_reads() {
    let mut state = AudioState::<Mono>::new(44100);
    state.samples = vec![[5], [6], [7]];
    assert_eq!(state.get_sample(), Some([6]));
    assert_eq!(state.get_sample(), Some([7]));
    assert_eq!(state.get_sample(), None);
    assert_eq!(state.index, 3);
}

#[test]
fn add_clip_converts_width_and_rate_and_records_the_size() {
    let mut state = AudioState::<Mono>::new(44100);
    state.add_clip(AudioClipEnum::Stereo(AudioClip::<Stereo>::new(vec![2, 4, 6, 8], 44100)));
    assert_eq!(state.samples, vec![[3], [7]]);
    state.add_clip(AudioClipEnum::Mono(AudioClip::<Mono>::new(vec![1; 3], 22050)));
    assert_eq!(state.samples, vec![[4], [8], [1], [1], [1], [1]]);
    assert_eq!(state.audio_clips.len(), 2);
    assert_eq!(state.get_metadata().size, 6);

    let mut wide = AudioState::<Stereo>::new(44100);
    wide.add_clip(AudioClipEnum::Mono(AudioClip::<Mono>::new(vec![9], 44100)));
    assert_eq!(wide.samples, vec![[9, 9]]);
    wide.audio_metadata.update_metadata(12);
    assert_eq!(wide.get_metadata().size, 12);
    wide.update_metadata();
    assert_eq!(wide.get_metadata().size, 1);
}
