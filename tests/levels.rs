use audio_pipeline::meter::{LevelMeter, LevelSnapshot};

#[test]
fn two_drains_within_window_notify_once() {
    let mut m = LevelMeter::new(0);
    m.record_mic(1);
    m.record_system(2);
    let first = m.on_drain(100, 3, 9);
    let second = m.on_drain(130, 4, 9);
    assert_eq!(first, Some(LevelSnapshot { mic_level: 1, system_level: 2, mixed_level: 9 }));
    assert_eq!(second, None);
    assert!(m.on_drain(150, 1, 5).is_some());
}

#[test]
fn first_window_starts_at_creation() {
    let mut m = LevelMeter::new(1000);
    assert_eq!(m.on_drain(1049, 1, 0), None);
    assert!(m.on_drain(1050, 1, 0).is_some());
}

#[test]
fn drain_without_pairs_never_notifies() {
    let mut m = LevelMeter::new(0);
    assert_eq!(m.on_drain(10_000, 0, 3), None);
    assert!(m.on_drain(10_000, 1, 3).is_some());
}

#[test]
fn backwards_clock_counts_as_no_time() {
    let mut m = LevelMeter::new(500);
    assert_eq!(m.on_drain(100, 1, 0), None);
}

#[test]
fn levels_are_overwritten_and_reset() {
    let mut m = LevelMeter::new(0);
    m.record_mic(5);
    m.record_mic(6);
    m.record_system(7);
    assert_eq!((m.mic_level(), m.system_level()), (6, 7));
    m.reset();
    assert_eq!((m.mic_level(), m.system_level()), (0, 0));
}
