use audio_pipeline::resample::{RateConverter, TARGET_RATE};

#[test]
fn downsample_halves_frames() {
    let mut c = RateConverter::new(96000);
    let data: Vec<u32> = (0..2000).collect();
    let out = c.convert(&data, 2);
    assert_eq!(out.len(), 1000);
    assert_eq!(c.frames_emitted(), 500);
    assert_eq!(c.frames_consumed(), 1000);
    assert_eq!(&out[0..4], &[0, 1, 4, 5]);
}

#[test]
fn drift_stays_within_one_frame() {
    let mut c = RateConverter::new(44100);
    let chunk: Vec<u32> = vec![0; 441];
    let mut n: u64 = 0;
    while n < 1_000_000 {
        c.convert(&chunk, 1);
        n += 441;
        let exact = n as f64 * TARGET_RATE as f64 / 44100.0;
        let diff = (c.frames_emitted() as f64 - exact).abs();
        assert!(diff <= 1.0, "n = {}, diff = {}", n, diff);
    }
}

#[test]
fn drift_exact_at_one_second() {
    let mut c = RateConverter::new(44100);
    let data: Vec<u32> = vec![0; 44100];
    let out = c.convert(&data, 1);
    assert_eq!(out.len(), 2 * 48000);
}

#[test]
fn same_rate_passes_frames_through() {
    let mut c = RateConverter::new(48000);
    let out = c.convert(&[1, 2, 3, 4, 5, 6], 2);
    assert_eq!(out, vec![1, 2, 3, 4, 5, 6]);
}

#[test]
fn mono_is_duplicated() {
    let mut c = RateConverter::new(48000);
    let out = c.convert(&[7, 8], 1);
    assert_eq!(out, vec![7, 7, 8, 8]);
}

#[test]
fn extra_channels_are_ignored() {
    let mut c = RateConverter::new(48000);
    let out = c.convert(&[1, 2, 3, 4, 5, 6, 7, 8], 4);
    assert_eq!(out, vec![1, 2, 5, 6]);
}

#[test]
fn upsample_repeats_frames() {
    let mut c = RateConverter::new(24000);
    let out = c.convert(&[1, 2, 3], 1);
    assert_eq!(out, vec![1, 1, 1, 1, 2, 2, 2, 2, 3, 3, 3, 3]);
}

#[test]
fn state_carries_across_batches() {
    let mut c = RateConverter::new(96000);
    let a = c.convert(&[1], 1);
    let b = c.convert(&[2], 1);
    let d = c.convert(&[3], 1);
    assert_eq!(a, vec![1, 1]);
    assert!(b.is_empty());
    assert_eq!(d, vec![3, 3]);
}

#[test]
fn short_last_frame_uses_its_two_samples() {
    let mut c = RateConverter::new(48000);
    let out = c.convert(&[1, 2, 3, 4, 5], 3);
    assert_eq!(out, vec![1, 2, 4, 5]);
}

#[test]
fn can_take_rejects_unusable_batches() {
    let c = RateConverter::new(48000);
    assert!(c.can_take(6, 2));
    assert!(c.can_take(5, 3));
    assert!(!c.can_take(7, 3));
    assert!(!c.can_take(4, 0));
    assert!(c.can_take(0, 1));
    assert!(!c.can_take(usize::MAX, 1));
}
