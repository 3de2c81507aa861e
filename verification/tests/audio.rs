use argos::{
    collapse_channels_i16, collapse_channels_u16, to_stereo, PlaybackSkip, VoiceSegmenter,
    CHUNK_SIZE, TARGET_SAMPLE_RATE,
};

#[test]
fn collapse_i16_averages_each_frame_rounding_toward_zero() {
    let mono = collapse_channels_i16(&[1, 3, -1, -2, 5], 2);
    assert_eq!(mono, vec![2, -1]);
}

#[test]
fn collapse_i16_mono_is_a_copy() {
    let mono = collapse_channels_i16(&[7, -8, 32767, -32768], 1);
    assert_eq!(mono, vec![7, -8, 32767, -32768]);
}

#[test]
fn collapse_i16_extremes_fit() {
    let mono = collapse_channels_i16(&[-32768, -32768, -32768, 32767, 32767, 32767], 3);
    assert_eq!(mono, vec![-32768, 32767]);
}

#[test]
fn collapse_i16_drops_partial_frame() {
    let mono = collapse_channels_i16(&[4, 4, 4, 4], 3);
    assert_eq!(mono, vec![4]);
    assert!(collapse_channels_i16(&[1, 2], 3).is_empty());
}

#[test]
fn collapse_u16_centers_the_mean() {
    let mono = collapse_channels_u16(&[0, 65535, 32768, 32768, 1, 2], 2);
    assert_eq!(mono, vec![-1, 0, -32767]);
}

#[test]
fn collapse_u16_mono_shifts_each_sample() {
    let mono = collapse_channels_u16(&[0, 32768, 65535], 1);
    assert_eq!(mono, vec![-32768, 0, 32767]);
}

#[test]
fn stereo_from_mono_doubles_each_sample() {
    let out = to_stereo(vec![1.5f32, -0.25], 1).unwrap();
    assert_eq!(out, vec![1.5, 1.5, -0.25, -0.25]);
}

#[test]
fn stereo_input_is_kept() {
    let out = to_stereo(vec![1u8, 2, 3, 4], 2).unwrap();
    assert_eq!(out, vec![1, 2, 3, 4]);
}

#[test]
fn empty_or_multichannel_frames_are_skipped() {
    assert_eq!(to_stereo(Vec::<f32>::new(), 1).unwrap_err(), PlaybackSkip::Empty);
    assert_eq!(to_stereo(Vec::<f32>::new(), 5).unwrap_err(), PlaybackSkip::Empty);
    assert_eq!(
        to_stereo(vec![0.0f32; 6], 6).unwrap_err(),
        PlaybackSkip::UnsupportedChannels(6)
    );
    assert_eq!(
        to_stereo(vec![0.0f32; 6], 0).unwrap_err(),
        PlaybackSkip::UnsupportedChannels(0)
    );
}

#[test]
fn segmenter_sends_voice_when_silence_follows() {
    let mut seg = VoiceSegmenter::new();
    assert_eq!(seg.push_chunk(vec![9, 9], false), None);
    assert_eq!(seg.push_chunk(vec![1, 2], true), None);
    assert_eq!(seg.push_chunk(vec![3], true), None);
    assert_eq!(seg.push_chunk(vec![0, 0], false), Some(vec![1, 2, 3]));
    assert_eq!(seg.push_chunk(vec![0, 0], false), None);
    assert_eq!(seg.push_chunk(vec![4], true), None);
    assert_eq!(seg.push_chunk(vec![], false), Some(vec![4]));
}

#[test]
fn segmenter_keeps_every_voice_sample_in_order() {
    let events: Vec<(Vec<i32>, bool)> = vec![
        (vec![1, 2], true),
        (vec![100], false),
        (vec![3], true),
        (vec![4, 5], true),
        (vec![101], false),
        (vec![6], true),
    ];
    let mut seg = VoiceSegmenter::new();
    let mut sent: Vec<i32> = Vec::new();
    let mut messages = 0;
    for (chunk, voice) in events {
        if let Some(m) = seg.push_chunk(chunk, voice) {
            assert!(!m.is_empty());
            messages += 1;
            sent.extend(m);
        }
    }
    let rest = seg.push_chunk(Vec::new(), false).unwrap();
    sent.extend(rest);
    assert_eq!(messages, 2);
    assert_eq!(sent, vec![1, 2, 3, 4, 5, 6]);
}

#[test]
fn audio_constants() {
    assert_eq!(TARGET_SAMPLE_RATE, 16_000);
    assert_eq!(CHUNK_SIZE, 256);
}

#[test]
fn output_takes_queued_samples_then_silence() {
    let mut queue: std::collections::VecDeque<f32> = vec![0.5, -0.5, 0.25].into();
    let mut out = [9.0f32; 2];
    argos::fill_from_queue(&mut queue, &mut out, 0.0);
    assert_eq!(out, [0.5, -0.5]);
    assert_eq!(queue, vec![0.25]);
    let mut out = [9.0f32; 3];
    argos::fill_from_queue(&mut queue, &mut out, 0.0);
    assert_eq!(out, [0.25, 0.0, 0.0]);
    assert!(queue.is_empty());
}

#[test]
fn collapse_with_more_channels_than_samples_is_empty() {
    assert!(collapse_channels_i16(&[1, 2, 3], 100_000).is_empty());
    assert!(collapse_channels_u16(&[1, 2, 3], 100_000).is_empty());
    assert_eq!(collapse_channels_u16(&vec![65535u16; 65537], 65537), vec![32767]);
}
