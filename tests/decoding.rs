use audio_pipeline::decode::{assemble_batch, decode_le_samples, interleave_planar};
use audio_pipeline::device::{capture_rate, select_input, InputRange};

#[test]
fn decodes_little_endian_floats() {
    let mut bytes = Vec::new();
    bytes.extend_from_slice(&1.0f32.to_le_bytes());
    bytes.extend_from_slice(&(-0.5f32).to_le_bytes());
    bytes.extend_from_slice(&[1, 2, 3]);
    let out = decode_le_samples(&bytes);
    assert_eq!(out, vec![0x3f80_0000, (-0.5f32).to_bits()]);
}

#[test]
fn decode_of_short_buffer_is_empty() {
    assert!(decode_le_samples(&[1, 2, 3]).is_empty());
}

#[test]
fn planes_interleave_by_instant() {
    let planes = vec![vec![1, 2, 3], vec![10, 20, 30]];
    assert_eq!(interleave_planar(&planes), vec![1, 10, 2, 20, 3, 30]);
}

#[test]
fn short_planes_are_skipped_past_their_end() {
    let planes = vec![vec![1, 2, 3], vec![10]];
    assert_eq!(interleave_planar(&planes), vec![1, 10, 2, 3]);
    let planes = vec![vec![1], vec![10, 20]];
    assert_eq!(interleave_planar(&planes), vec![1, 10]);
    assert!(interleave_planar(&vec![]).is_empty());
}

#[test]
fn single_buffer_is_already_interleaved() {
    let mut b = Vec::new();
    for v in [0.25f32, 0.5, 0.75] {
        b.extend_from_slice(&v.to_le_bytes());
    }
    let out = assemble_batch(&vec![b]);
    assert_eq!(out, vec![0.25f32.to_bits(), 0.5f32.to_bits(), 0.75f32.to_bits()]);
}

#[test]
fn planar_buffers_are_decoded_and_interleaved() {
    let left: Vec<u8> = [1.0f32, 2.0].iter().flat_map(|v| v.to_le_bytes()).collect();
    let right: Vec<u8> = [3.0f32, 4.0].iter().flat_map(|v| v.to_le_bytes()).collect();
    let out = assemble_batch(&vec![left, right]);
    let expect: Vec<u32> = [1.0f32, 3.0, 2.0, 4.0].iter().map(|v| v.to_bits()).collect();
    assert_eq!(out, expect);
}

fn range(is_f32: bool, min_rate: u32, max_rate: u32) -> InputRange {
    InputRange { is_f32, channels: 1, min_rate, max_rate }
}

#[test]
fn prefers_float_range_covering_target() {
    let cs = vec![range(false, 8000, 96000), range(true, 8000, 44100), range(true, 44100, 96000)];
    assert_eq!(select_input(&cs), Some(2));
}

#[test]
fn falls_back_to_first_range() {
    let cs = vec![range(false, 8000, 44100), range(true, 8000, 44100)];
    assert_eq!(select_input(&cs), Some(0));
    assert_eq!(select_input(&vec![]), None);
}

#[test]
fn rate_is_target_when_covered_else_highest() {
    assert_eq!(capture_rate(&range(true, 8000, 96000)), 48000);
    assert_eq!(capture_rate(&range(true, 8000, 44100)), 44100);
    assert_eq!(capture_rate(&range(true, 96000, 192000)), 192000);
}
