use audio_general::audio::audio_clip::{AudioClip, AudioClipEnum};
use audio_general::audio::error::AudioError;
use audio_general::audio::frame::{Mono, Stereo};

#[test]
fn test_resample_mono() {
    let input_samples: Vec<Mono> = vec![[0]; 1000];
    let input_clip = AudioClip::from_frames(input_samples, 44100, 0);

    let output_clip = input_clip.resample(88200);
    assert_eq!(output_clip.get_frames_ref().len(), 2000);
    assert_eq!(output_clip.get_sample_rate(), 88200);
}

#[test]
fn test_resample_stereo() {
    let input_samples: Vec<Stereo> = vec![[0, 0]; 1000];
    let input_clip = AudioClip::from_frames(input_samples, 44100, 0);

    let output_clip = input_clip.resample(88200);
    assert_eq!(output_clip.get_frames_ref().len(), 2000);
    assert_eq!(output_clip.get_sample_rate(), 88200);
}

#[test]
fn test_get_samples_mono() {
    let input_samples: Vec<Mono> = vec![[0; 1]; 1000];
    let input_clip = AudioClip::from_frames(input_samples, 44100, 0);
    let samples = input_clip.get_frames_ref();
    assert_eq!(samples, vec![[0; 1]; 1000]);
}

#[test]
fn test_get_samples_stereo() {
    let input_samples: Vec<Stereo> = vec![[0, 0]; 1000];
    let input_clip = AudioClip::from_frames(input_samples, 44100, 0);
    let samples = input_clip.get_frames_ref();
    assert_eq!(samples, vec![[0, 0]; 1000]);
}

#[test]
fn test_get_sample_mono() {
    let input_samples: Vec<Mono> = vec![[0], [1], [2], [3], [4]];
    let input_clip = AudioClip::from_frames(input_samples, 44100, 0);
    let sample = input_clip.get_frame(2).unwrap();
    assert_eq!(sample, [2]);
}

#[test]
fn test_get_sample_stereo() {
    let input_samples: Vec<Stereo> = vec![[0, 0], [1, 1], [2, 2], [3, 3], [4, 4]];
    let input_clip = AudioClip::from_frames(input_samples, 44100, 0);
    let sample = input_clip.get_frame(2).unwrap();
    assert_eq!(sample, [2, 2]);
}

#[test]
fn get_frame_past_the_end_is_absent() {
    let clip = AudioClip::<Mono>::new(vec![7, 8], 44100);
    assert_eq!(clip.get_frame(1), Some([8]));
    assert_eq!(clip.get_frame(2), None);
}

#[test]
fn set_frame_past_the_end_is_refused() {
    let mut clip = AudioClip::<Mono>::new(vec![7, 8], 44100);
    assert_eq!(clip.set_frame(1, [9]), Ok(()));
    assert_eq!(clip.set_frame(2, [9]), Err(AudioError::OutOfBounds));
    assert_eq!(clip.get_frames_ref(), vec![[7], [9]]);
}

#[test]
fn default_clip_is_five_seconds_of_silence() {
    let clip = AudioClip::<Stereo>::default();
    assert_eq!(clip.get_length(), 220500);
    assert_eq!(clip.get_sample_rate(), 44100);
    assert_eq!(clip.get_start_time_frame(), 0);
    assert!(clip.get_frames_ref().iter().all(|f| *f == [0, 0]));
}

#[test]
fn with_capacity_is_silent() {
    let clip = AudioClip::<Mono>::with_capacity(4);
    assert_eq!(clip.get_frames_ref(), vec![[0]; 4]);
    assert_eq!(clip.get_sample_rate(), 44100);
}

#[test]
fn resize_fills_and_truncates() {
    let mut clip = AudioClip::<Mono>::new(vec![1, 2, 3], 44100);
    clip.set_start_time_frame(9);
    clip.resize_frames(5, [7]);
    assert_eq!(clip.get_frames_ref(), vec![[1], [2], [3], [7], [7]]);
    clip.resize_frames(2, [7]);
    assert_eq!(clip.get_frames_ref(), vec![[1], [2]]);
    assert_eq!(clip.get_start_time_frame(), 9);
}

#[test]
fn pad_left_keeps_start() {
    let mut clip = AudioClip::<Stereo>::new(vec![1, 2, 3, 4], 48000);
    clip.set_start_time_frame(3);
    clip.add_padding_left(2);
    assert_eq!(clip.get_frames_ref(), vec![[0, 0], [0, 0], [1, 2], [3, 4]]);
    assert_eq!(clip.get_start_time_frame(), 3);
    clip.add_padding_left(0);
    assert_eq!(clip.get_length(), 4);
}

#[test]
fn reset_keeps_shape() {
    let mut clip = AudioClip::<Mono>::new(vec![1, 2, 3], 8000);
    clip.set_start_time_frame(5);
    clip.reset_clip();
    assert_eq!(clip.get_frames_ref(), vec![[0], [0], [0]]);
    assert_eq!(clip.get_sample_rate(), 8000);
    assert_eq!(clip.get_start_time_frame(), 5);
}

#[test]
fn stereo_new_drops_a_lone_last_sample() {
    let clip = AudioClip::<Stereo>::new(vec![1, 2, 3, 4, 5], 44100);
    assert_eq!(clip.get_frames_ref(), vec![[1, 2], [3, 4]]);
}

#[test]
fn to_mono_takes_the_midpoint_rounded_down() {
    let clip = AudioClip::<Stereo>::new(vec![2, 4, 1, 2, -1, -2, i32::MAX, i32::MAX, i32::MIN, -1], 44100);
    let mono = clip.to_mono();
    assert_eq!(mono.get_frames_ref(), vec![[3], [1], [-2], [i32::MAX], [-1073741825]]);
}

#[test]
fn mono_to_stereo_and_back_is_identity() {
    let mut clip = AudioClip::<Mono>::new(vec![5, -7, i32::MIN, i32::MAX, 0], 22050);
    clip.set_start_time_frame(11);
    let stereo = clip.to_stereo();
    assert_eq!(stereo.get_frames_ref()[1], [-7, -7]);
    let back = stereo.to_mono();
    assert_eq!(back.get_frames_ref(), clip.get_frames_ref());
    assert_eq!(back.get_sample_rate(), 22050);
    assert_eq!(back.get_start_time_frame(), 11);
}

#[test]
fn resample_same_rate_is_a_copy() {
    let mut clip = AudioClip::<Mono>::new(vec![5, 6, 7], 44100);
    clip.set_start_time_frame(2);
    let same = clip.resample(44100);
    assert_eq!(same.get_frames_ref(), vec![[5], [6], [7]]);
    assert_eq!(same.get_start_time_frame(), 2);
}

#[test]
fn resample_length_is_rounded_up() {
    let clip = AudioClip::<Mono>::new(vec![0; 10], 44100);
    assert_eq!(clip.resample(48000).get_length(), 11);
    assert_eq!(clip.resample(22050).get_length(), 5);
    let odd = AudioClip::<Mono>::new(vec![0; 3], 2);
    assert_eq!(odd.resample(1).get_length(), 2);
    assert_eq!(AudioClip::<Mono>::new(vec![], 2).resample(1).get_length(), 0);
}

#[test]
fn resample_interpolates_between_frames() {
    let clip = AudioClip::<Mono>::new(vec![0, 1000, 2000, 3000], 1);
    let up = clip.resample(2);
    let got: Vec<i32> = up.get_frames_ref().iter().map(|f| f[0]).collect();
    assert_eq!(got.len(), 8);
    let want = [0, 500, 1000, 1500, 2000, 2500, 3000, 3000];
    for (g, w) in got.iter().zip(want.iter()) {
        assert!((g - w).abs() <= 1, "{:?}", got);
    }
    assert_eq!(up.get_sample_rate(), 2);
}

#[test]
fn resample_there_and_back_keeps_a_constant_clip() {
    let mut clip = AudioClip::<Stereo>::new(vec![1 << 20; 2000], 44100);
    clip.set_start_time_frame(4);
    let up = clip.resample(88200);
    assert_eq!(up.get_length(), 2000);
    assert!(up.get_frames_ref().iter().all(|f| *f == [1 << 20, 1 << 20]));
    let back = up.resample(44100);
    assert_eq!(back.get_frames_ref(), clip.get_frames_ref());
    assert_eq!(back.get_start_time_frame(), 4);
}

#[test]
fn from_samples_checks_the_channel_count() {
    match AudioClipEnum::from_samples(vec![1, 2, 3, 4], 44100, 1) {
        Ok(AudioClipEnum::Mono(clip)) => assert_eq!(clip.get_length(), 4),
        _ => panic!("one channel makes a mono clip"),
    }
    match AudioClipEnum::from_samples(vec![1, 2, 3, 4], 44100, 2) {
        Ok(AudioClipEnum::Stereo(clip)) => assert_eq!(clip.get_frames_ref(), vec![[1, 2], [3, 4]]),
        _ => panic!("two channels make a stereo clip"),
    }
    assert!(matches!(
        AudioClipEnum::from_samples(vec![1, 2, 3], 44100, 3),
        Err(AudioError::InvalidChannels)
    ));
    assert!(matches!(
        AudioClipEnum::from_samples(vec![], 44100, 0),
        Err(AudioError::InvalidChannels)
    ));
}

#[test]
fn default_enum_clip_is_empty_stereo() {
    match AudioClipEnum::default() {
        AudioClipEnum::Stereo(clip) => {
            assert_eq!(clip.get_length(), 0);
            assert_eq!(clip.get_sample_rate(), 44100);
        }
        AudioClipEnum::Mono(_) => panic!("the default is stereo"),
    }
}
