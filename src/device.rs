use crate::resample::TARGET_RATE;
use vstd::prelude::*;

verus! {

/// One input configuration range that a microphone offers.
#[derive(Clone, Copy, Debug, PartialEq, Eq)]
pub struct InputRange {
    /// The range delivers 32-bit float samples.
    pub is_f32: bool,
    pub channels: u16,
    pub min_rate: u32,
    pub max_rate: u32,
}

/// The range can run at the target rate.
pub open spec fn covers_target(c: InputRange) -> bool {
    c.min_rate <= TARGET_RATE && TARGET_RATE <= c.max_rate
}

/// A float range that can run at the target rate.
pub open spec fn preferred(c: InputRange) -> bool {
    c.is_f32 && covers_target(c)
}

/// Picks the input range a microphone capture should use.
pub fn select_input(configs: &Vec<InputRange>) -> (r: Option<usize>)
    ensures
        r.is_none() == (configs@.len() == 0),
        r.is_some() ==> r.unwrap() < configs@.len(),
        r.is_some() && preferred(configs@[r.unwrap() as int]) ==> forall|j: int|
            0 <= j < r.unwrap() ==> !preferred(#[trigger] configs@[j]),
        r.is_some() && !preferred(configs@[r.unwrap() as int]) ==> r.unwrap() == 0 && forall|
            j: int,
        |
            0 <= j < configs@.len() ==> !preferred(#[trigger] configs@[j]),
{
    let mut i: usize = 0;
    while i < configs.len()
        invariant
            i <= configs@.len(),
            forall|j: int| 0 <= j < i ==> !preferred(#[trigger] configs@[j]),
        decreases configs@.len() - i,
    {
        let c = configs[i];
        if c.is_f32 && c.min_rate <= TARGET_RATE && TARGET_RATE <= c.max_rate {
            return Some(i);
        }
        i = i + 1;
    }
    if configs.len() > 0 {
        Some(0)
    } else {
        None
    }
}

/// The rate to open a range at: the target rate when the range covers it,
/// else the range's highest rate.
pub fn capture_rate(c: &InputRange) -> (r: u32)
    ensures
        r == (if covers_target(*c) {
            TARGET_RATE
        } else {
            c.max_rate
        }),
{
    if c.min_rate <= TARGET_RATE && TARGET_RATE <= c.max_rate {
        TARGET_RATE
    } else {
        c.max_rate
    }
}

} // verus!
