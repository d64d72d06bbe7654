use crate::ring::{RingBuffer, SampleBits};
use vstd::prelude::*;

verus! {

/// One stereo frame from each source, taken at the same queue position.
#[derive(Clone, Copy, Debug, PartialEq, Eq)]
pub struct PairedFrame {
    pub sys_left: SampleBits,
    pub sys_right: SampleBits,
    pub mic_left: SampleBits,
    pub mic_right: SampleBits,
}

/// The `i`-th stereo pair of two interleaved sample streams.
pub open spec fn paired(sys: Seq<SampleBits>, mic: Seq<SampleBits>, i: int) -> PairedFrame {
    PairedFrame {
        sys_left: sys[2 * i],
        sys_right: sys[2 * i + 1],
        mic_left: mic[2 * i],
        mic_right: mic[2 * i + 1],
    }
}

/// The first `k` stereo pairs of two interleaved sample streams.
pub open spec fn pairs_of(sys: Seq<SampleBits>, mic: Seq<SampleBits>, k: nat) -> Seq<PairedFrame> {
    Seq::new(k, |i: int| paired(sys, mic, i))
}

pub open spec fn min_nat(a: nat, b: nat) -> nat {
    if a <= b { a } else { b }
}

/// The synchronisation point of the pipeline: a queue per source, and the
/// count of stereo pairs handed out so far.
pub struct Mixer {
    system: RingBuffer,
    mic: RingBuffer,
    system_pushed: u64,
    mic_pushed: u64,
    pairs_mixed: u64,
    system_history: Ghost<Seq<SampleBits>>,
    mic_history: Ghost<Seq<SampleBits>>,
}

impl Mixer {
    /// Samples still waiting in the system queue.
    pub closed spec fn system_queue(&self) -> Seq<SampleBits> {
        self.system@
    }

    /// Samples still waiting in the microphone queue.
    pub closed spec fn mic_queue(&self) -> Seq<SampleBits> {
        self.mic@
    }

    /// Every sample ever pushed to the system queue, in order.
    pub closed spec fn system_history(&self) -> Seq<SampleBits> {
        self.system_history@
    }

    /// Every sample ever pushed to the microphone queue, in order.
    pub closed spec fn mic_history(&self) -> Seq<SampleBits> {
        self.mic_history@
    }

    /// Number of stereo pairs handed out by all drains so far.
    pub closed spec fn pairs(&self) -> nat {
        self.pairs_mixed as nat
    }

    /// Every pair handed out so far, in order.
    pub open spec fn mixed(&self) -> Seq<PairedFrame> {
        pairs_of(self.system_history(), self.mic_history(), self.pairs())
    }

    /// Neither queue holds a full pair that the other could match.
    pub open spec fn drained(&self) -> bool {
        self.system_queue().len() < 2 || self.mic_queue().len() < 2
    }

    pub closed spec fn wf(&self) -> bool {
        &&& self.system_history@.len() == self.system_pushed
        &&& self.mic_history@.len() == self.mic_pushed
        &&& 2 * self.pairs_mixed <= self.system_pushed
        &&& 2 * self.pairs_mixed <= self.mic_pushed
        &&& self.system@ == self.system_history@.subrange(
            2 * self.pairs_mixed,
            self.system_pushed as int,
        )
        &&& self.mic@ == self.mic_history@.subrange(2 * self.pairs_mixed, self.mic_pushed as int)
    }

    pub fn new() -> (r: Mixer)
        ensures
            r.wf(),
            r.system_history() == Seq::<SampleBits>::empty(),
            r.mic_history() == Seq::<SampleBits>::empty(),
            r.system_queue() == Seq::<SampleBits>::empty(),
            r.mic_queue() == Seq::<SampleBits>::empty(),
            r.pairs() == 0,
    {
        let r = Mixer {
            system: RingBuffer::new(),
            mic: RingBuffer::new(),
            system_pushed: 0,
            mic_pushed: 0,
            pairs_mixed: 0,
            system_history: Ghost(Seq::empty()),
            mic_history: Ghost(Seq::empty()),
        };
        proof {
            assert(r.system@ =~= r.system_history@.subrange(0, 0));
            assert(r.mic@ =~= r.mic_history@.subrange(0, 0));
        }
        r
    }

    /// Total samples pushed to the system queue.
    pub fn system_pushed(&self) -> (n: u64)
        requires
            self.wf(),
        ensures
            n == self.system_history().len(),
    {
        self.system_pushed
    }

    /// Total samples pushed to the microphone queue.
    pub fn mic_pushed(&self) -> (n: u64)
        requires
            self.wf(),
        ensures
            n == self.mic_history().len(),
    {
        self.mic_pushed
    }

    /// Stereo pairs handed out so far.
    pub fn pairs_mixed(&self) -> (n: u64)
        ensures
            n == self.pairs(),
    {
        self.pairs_mixed
    }

    /// Appends a batch of system samples.
    pub fn push_system(&mut self, batch: &[SampleBits])
        requires
            old(self).wf(),
            old(self).system_history().len() + batch@.len() <= u64::MAX,
        ensures
            final(self).wf(),
            final(self).system_queue() == old(self).system_queue() + batch@,
            final(self).system_history() == old(self).system_history() + batch@,
            final(self).mic_queue() == old(self).mic_queue(),
            final(self).mic_history() == old(self).mic_history(),
            final(self).pairs() == old(self).pairs(),
    {
        self.system.push(batch);
        self.system_pushed = self.system_pushed + batch.len() as u64;
        self.system_history = Ghost(self.system_history@ + batch@);
        proof {
            let h = self.system_history@;
            let oh = old(self).system_history@;
            assert(h.subrange(2 * self.pairs_mixed, h.len() as int) == oh.subrange(
                2 * self.pairs_mixed,
                oh.len() as int,
            ) + batch@);
        }
    }

    /// Appends a batch of microphone samples.
    pub fn push_mic(&mut self, batch: &[SampleBits])
        requires
            old(self).wf(),
            old(self).mic_history().len() + batch@.len() <= u64::MAX,
        ensures
            final(self).wf(),
            final(self).mic_queue() == old(self).mic_queue() + batch@,
            final(self).mic_history() == old(self).mic_history() + batch@,
            final(self).system_queue() == old(self).system_queue(),
            final(self).system_history() == old(self).system_history(),
            final(self).pairs() == old(self).pairs(),
    {
        self.mic.push(batch);
        self.mic_pushed = self.mic_pushed + batch.len() as u64;
        self.mic_history = Ghost(self.mic_history@ + batch@);
        proof {
            let h = self.mic_history@;
            let oh = old(self).mic_history@;
            assert(h.subrange(2 * self.pairs_mixed, h.len() as int) == oh.subrange(
                2 * self.pairs_mixed,
                oh.len() as int,
            ) + batch@);
        }
    }

    /// Pairs off every stereo frame that both queues can supply, oldest
    /// first, and returns them; an odd or unmatched tail stays queued.
    pub fn drain(&mut self) -> (r: Vec<PairedFrame>)
        requires
            old(self).wf(),
        ensures
            final(self).wf(),
            r@.len() == min_nat(old(self).system_queue().len(), old(self).mic_queue().len()) / 2,
            r@ == pairs_of(old(self).system_queue(), old(self).mic_queue(), r@.len()),
            final(self).system_queue() == old(self).system_queue().subrange(
                2 * (r@.len() as int),
                old(self).system_queue().len() as int,
            ),
            final(self).mic_queue() == old(self).mic_queue().subrange(
                2 * (r@.len() as int),
                old(self).mic_queue().len() as int,
            ),
            final(self).pairs() == old(self).pairs() + r@.len(),
            final(self).system_history() == old(self).system_history(),
            final(self).mic_history() == old(self).mic_history(),
            final(self).mixed() == old(self).mixed() + r@,
            final(self).drained(),
    {
        let ghost s0 = self.system@;
        let ghost m0 = self.mic@;
        let ghost k0 = self.pairs_mixed as int;
        let mut out: Vec<PairedFrame> = Vec::new();
        while self.system.len() >= 2 && self.mic.len() >= 2
            invariant
                self.wf(),
                self.system_history == old(self).system_history,
                self.mic_history == old(self).mic_history,
                self.system_pushed == old(self).system_pushed,
                self.mic_pushed == old(self).mic_pushed,
                self.pairs_mixed == k0 + out@.len(),
                2 * out@.len() <= s0.len(),
                2 * out@.len() <= m0.len(),
                self.system@ == s0.subrange(2 * (out@.len() as int), s0.len() as int),
                self.mic@ == m0.subrange(2 * (out@.len() as int), m0.len() as int),
                out@ == pairs_of(s0, m0, out@.len()),
                s0 == old(self).system@,
                m0 == old(self).mic@,
                s0 == self.system_history@.subrange(2 * k0, self.system_pushed as int),
                m0 == self.mic_history@.subrange(2 * k0, self.mic_pushed as int),
                k0 == old(self).pairs_mixed,
            decreases self.system@.len(),
        {
            let ghost k = out@.len() as int;
            let (sl, sr) = self.system.take_pair();
            let (ml, mr) = self.mic.take_pair();
            out.push(PairedFrame { sys_left: sl, sys_right: sr, mic_left: ml, mic_right: mr });
            self.pairs_mixed = self.pairs_mixed + 1;
            proof {
                assert(s0.subrange(2 * k, s0.len() as int).subrange(2, s0.len() - 2 * k)
                    == s0.subrange(2 * k + 2, s0.len() as int));
                assert(m0.subrange(2 * k, m0.len() as int).subrange(2, m0.len() - 2 * k)
                    == m0.subrange(2 * k + 2, m0.len() as int));
                assert(out@ =~= pairs_of(s0, m0, out@.len()));
                let sh = self.system_history@;
                let mh = self.mic_history@;
                assert(sh.subrange(2 * self.pairs_mixed, sh.len() as int) =~= sh.subrange(
                    2 * k0,
                    sh.len() as int,
                ).subrange(2 * (out@.len() as int), s0.len() as int));
                assert(mh.subrange(2 * self.pairs_mixed, mh.len() as int) =~= mh.subrange(
                    2 * k0,
                    mh.len() as int,
                ).subrange(2 * (out@.len() as int), m0.len() as int));
            }
        }
        proof {
            let sh = self.system_history@;
            let mh = self.mic_history@;
            let n = out@.len() as int;
            assert forall|i: int| 0 <= i < n implies #[trigger] out@[i] == paired(sh, mh, k0 + i) by {
                assert(s0[2 * i] == sh[2 * (k0 + i)]);
                assert(s0[2 * i + 1] == sh[2 * (k0 + i) + 1]);
                assert(m0[2 * i] == mh[2 * (k0 + i)]);
                assert(m0[2 * i + 1] == mh[2 * (k0 + i) + 1]);
            }
            assert(self.mixed() =~= old(self).mixed() + out@);
        }
        out
    }
}

/// Pairing law: once a drain has run, the pairs handed out over the whole
/// session number half the smaller of the two push totals, rounded down, and
/// they are the position-aligned stereo pairs of the two pushed streams, so
/// no pushed sample is handed out twice.
pub proof fn lemma_pairing(m: Mixer)
    requires
        m.wf(),
        m.drained(),
    ensures
        m.pairs() == min_nat(m.system_history().len(), m.mic_history().len()) / 2,
        m.mixed() == pairs_of(m.system_history(), m.mic_history(), m.pairs()),
{
}

} // verus!
