use musializer::audio::{append_stereo, pcm16_le_bytes};

#[test]
fn mono_is_played_on_both_sides() {
    let mut out = vec![9];
    append_stereo(&mut out, &[1, 2, 3], 1);
    assert_eq!(out, vec![9, 1, 1, 2, 2, 3, 3]);
}

#[test]
fn stereo_is_kept() {
    let mut out: Vec<i32> = Vec::new();
    append_stereo(&mut out, &[1, 2, 3, 4], 2);
    assert_eq!(out, vec![1, 2, 3, 4]);
}

#[test]
fn surround_keeps_first_two_channels() {
    let mut out: Vec<i32> = Vec::new();
    append_stereo(&mut out, &[1, 2, 3, 4, 5, 6, 7, 8, 9, 10, 11, 12], 6);
    assert_eq!(out, vec![1, 2, 7, 8]);
}

#[test]
fn partial_last_frame_keeps_its_first_two_samples() {
    let mut out: Vec<i32> = Vec::new();
    append_stereo(&mut out, &[1, 2, 3, 4, 5], 3);
    assert_eq!(out, vec![1, 2, 4, 5]);
}

#[test]
fn no_channels_keeps_nothing() {
    let mut out = vec![7];
    append_stereo(&mut out, &[1, 2, 3], 0);
    assert_eq!(out, vec![7]);
}

#[test]
fn packets_accumulate() {
    let mut out: Vec<f32> = Vec::new();
    append_stereo(&mut out, &[0.5, -0.5], 2);
    append_stereo(&mut out, &[0.25], 1);
    assert_eq!(out, vec![0.5, -0.5, 0.25, 0.25]);
}

#[test]
fn pcm16_is_little_endian() {
    let bytes = pcm16_le_bytes(&[0, 1, -1, 32767, -32768, 0x1234]);
    assert_eq!(
        bytes,
        vec![0x00, 0x00, 0x01, 0x00, 0xff, 0xff, 0xff, 0x7f, 0x00, 0x80, 0x34, 0x12]
    );
}

#[test]
fn pcm16_round_trips() {
    let samples: Vec<i16> = (-40..40).map(|k: i16| k.wrapping_mul(823)).collect();
    let bytes = pcm16_le_bytes(&samples);
    let back: Vec<i16> = bytes.chunks(2).map(|c| i16::from_le_bytes([c[0], c[1]])).collect();
    assert_eq!(back, samples);
}
