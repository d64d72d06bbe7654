use audio_pipeline::mixer::{Mixer, PairedFrame};
use audio_pipeline::ring::RingBuffer;

fn bits(v: &[f32]) -> Vec<u32> {
    v.iter().map(|x| x.to_bits()).collect()
}

#[test]
fn ring_pops_oldest_pair_first() {
    let mut r = RingBuffer::new();
    r.push(&[1, 2, 3]);
    assert_eq!(r.len(), 3);
    assert_eq!(r.pop_pair(), Some((1, 2)));
    assert_eq!(r.pop_pair(), None);
    assert_eq!(r.len(), 1);
    r.push(&[4]);
    assert_eq!(r.pop_pair(), Some((3, 4)));
    assert_eq!(r.len(), 0);
}

#[test]
fn ring_clear_empties() {
    let mut r = RingBuffer::new();
    r.push(&[7, 8, 9, 10]);
    r.clear();
    assert_eq!(r.len(), 0);
    assert_eq!(r.pop_pair(), None);
}

#[test]
fn drain_pairs_position_aligned() {
    let mut m = Mixer::new();
    m.push_system(&[1, 2, 3, 4, 5]);
    m.push_mic(&[10, 20, 30]);
    let out = m.drain();
    assert_eq!(
        out,
        vec![PairedFrame { sys_left: 1, sys_right: 2, mic_left: 10, mic_right: 20 }]
    );
    m.push_mic(&[40, 50]);
    let out = m.drain();
    assert_eq!(
        out,
        vec![PairedFrame { sys_left: 3, sys_right: 4, mic_left: 30, mic_right: 40 }]
    );
    assert_eq!(m.pairs_mixed(), 2);
    assert!(m.drain().is_empty());
}

#[test]
fn pairing_count_over_many_pushes() {
    let mut m = Mixer::new();
    let mut total = 0usize;
    for k in 0..50u32 {
        let sys: Vec<u32> = (0..(k % 7)).collect();
        let mic: Vec<u32> = (0..(k % 5 + 1)).collect();
        m.push_system(&sys);
        if k % 3 == 0 {
            m.push_mic(&mic);
        }
        total += m.drain().len();
    }
    let expected = std::cmp::min(m.system_pushed(), m.mic_pushed()) / 2;
    assert_eq!(total as u64, expected);
    assert_eq!(m.pairs_mixed(), expected);
}

#[test]
fn drain_with_one_empty_source_mixes_nothing() {
    let mut m = Mixer::new();
    m.push_system(&[1, 2, 3, 4]);
    assert!(m.drain().is_empty());
    assert_eq!(m.pairs_mixed(), 0);
}

#[test]
fn opposite_signals_pair_up_for_silence() {
    let mut m = Mixer::new();
    m.push_system(&bits(&[1.0, 1.0]));
    m.push_mic(&bits(&[-1.0, -1.0]));
    let out = m.drain();
    assert_eq!(out.len(), 1);
    let p = out[0];
    let left = (f32::from_bits(p.sys_left) + f32::from_bits(p.mic_left)) / 2.0;
    let right = (f32::from_bits(p.sys_right) + f32::from_bits(p.mic_right)) / 2.0;
    assert_eq!((left, right), (0.0, 0.0));
}
