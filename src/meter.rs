use crate::ring::SampleBits;
use vstd::prelude::*;

verus! {

/// Least time between two level notifications, in milliseconds.
pub const THROTTLE_MS: u64 = 50;

/// Loudness figures handed to the host: each an RMS value as the bit
/// pattern of a 32-bit float.
#[derive(Clone, Copy, Debug, PartialEq, Eq)]
pub struct LevelSnapshot {
    pub mic_level: SampleBits,
    pub system_level: SampleBits,
    pub mixed_level: SampleBits,
}

/// Milliseconds from `last` to `now`; a clock that seems to run backwards
/// counts as no time at all.
pub open spec fn elapsed_ms(now: u64, last: u64) -> nat {
    if now >= last {
        (now - last) as nat
    } else {
        0
    }
}

/// Whether a drain at `now` that mixed `pairs` pairs notifies the host,
/// when the last notification was at `last`.
pub open spec fn notifies(last: u64, now: u64, pairs: u64) -> bool {
    pairs > 0 && elapsed_ms(now, last) >= THROTTLE_MS
}

/// Latest per-source levels and the time of the last notification.
pub struct LevelMeter {
    last_emit_ms: u64,
    mic_level: SampleBits,
    system_level: SampleBits,
}

impl LevelMeter {
    pub closed spec fn last_emit(&self) -> u64 {
        self.last_emit_ms
    }

    pub closed spec fn mic(&self) -> SampleBits {
        self.mic_level
    }

    pub closed spec fn system(&self) -> SampleBits {
        self.system_level
    }

    /// Whether a drain at `now` that mixed `pairs` pairs notifies the host.
    pub open spec fn emits(&self, now: u64, pairs: u64) -> bool {
        notifies(self.last_emit(), now, pairs)
    }

    /// Time of the last notification after such a drain.
    pub open spec fn last_after(&self, now: u64, pairs: u64) -> u64 {
        if self.emits(now, pairs) {
            now
        } else {
            self.last_emit()
        }
    }

    /// A meter whose throttle window starts at `now_ms`, with both levels zero.
    pub fn new(now_ms: u64) -> (r: LevelMeter)
        ensures
            r.last_emit() == now_ms,
            r.mic() == 0,
            r.system() == 0,
    {
        LevelMeter { last_emit_ms: now_ms, mic_level: 0, system_level: 0 }
    }

    pub fn mic_level(&self) -> (r: SampleBits)
        ensures
            r == self.mic(),
    {
        self.mic_level
    }

    pub fn system_level(&self) -> (r: SampleBits)
        ensures
            r == self.system(),
    {
        self.system_level
    }

    /// Stores the latest microphone level, replacing the previous one.
    pub fn record_mic(&mut self, level: SampleBits)
        ensures
            final(self).mic() == level,
            final(self).system() == old(self).system(),
            final(self).last_emit() == old(self).last_emit(),
    {
        self.mic_level = level;
    }

    /// Stores the latest system level, replacing the previous one.
    pub fn record_system(&mut self, level: SampleBits)
        ensures
            final(self).system() == level,
            final(self).mic() == old(self).mic(),
            final(self).last_emit() == old(self).last_emit(),
    {
        self.system_level = level;
    }

    /// Sets both levels back to zero; the throttle window is kept.
    pub fn reset(&mut self)
        ensures
            final(self).mic() == 0,
            final(self).system() == 0,
            final(self).last_emit() == old(self).last_emit(),
    {
        self.mic_level = 0;
        self.system_level = 0;
    }

    /// Called after each drain: returns the snapshot to notify when the drain
    /// mixed at least one pair and the throttle window has passed, and then
    /// starts a new window at `now_ms`.
    pub fn on_drain(&mut self, now_ms: u64, pairs: u64, mixed_level: SampleBits) -> (r: Option<
        LevelSnapshot,
    >)
        ensures
            r.is_some() == old(self).emits(now_ms, pairs),
            r.is_some() ==> r == Some(
                LevelSnapshot {
                    mic_level: old(self).mic(),
                    system_level: old(self).system(),
                    mixed_level,
                },
            ),
            final(self).last_emit() == old(self).last_after(now_ms, pairs),
            final(self).mic() == old(self).mic(),
            final(self).system() == old(self).system(),
    {
        if pairs == 0 {
            return None;
        }
        let elapsed: u64 = if now_ms >= self.last_emit_ms {
            now_ms - self.last_emit_ms
        } else {
            0
        };
        if elapsed >= THROTTLE_MS {
            self.last_emit_ms = now_ms;
            Some(
                LevelSnapshot {
                    mic_level: self.mic_level,
                    system_level: self.system_level,
                    mixed_level,
                },
            )
        } else {
            None
        }
    }
}

/// Throttle law: of two drains less than the throttle interval apart, at
/// most one notifies the host, whatever each mixed.
pub proof fn lemma_throttle(m: LevelMeter, t1: u64, first: u64, t2: u64, second: u64)
    requires
        t1 <= t2,
        t2 - t1 < THROTTLE_MS,
    ensures
        !(m.emits(t1, first) && notifies(m.last_after(t1, first), t2, second)),
{
}

} // verus!
