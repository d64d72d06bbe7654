use std::collections::VecDeque;
use vstd::prelude::*;

verus! {

/// An amplitude as the bit pattern of a 32-bit IEEE-754 float.
pub type SampleBits = u32;

/// An unbounded FIFO queue of samples between one producer and the mixer.
pub struct RingBuffer {
    samples: VecDeque<SampleBits>,
}

impl RingBuffer {
    /// The queued samples, oldest first.
    pub closed spec fn view(&self) -> Seq<SampleBits> {
        self.samples@
    }

    pub fn new() -> (r: RingBuffer)
        ensures
            r@ == Seq::<SampleBits>::empty(),
    {
        RingBuffer { samples: VecDeque::new() }
    }

    pub fn len(&self) -> (n: usize)
        ensures
            n == self@.len(),
    {
        self.samples.len()
    }

    /// Appends `batch` to the tail, keeping its order.
    pub fn push(&mut self, batch: &[SampleBits])
        ensures
            final(self)@ == old(self)@ + batch@,
    {
        let mut i: usize = 0;
        while i < batch.len()
            invariant
                0 <= i <= batch@.len(),
                self@ == old(self)@ + batch@.subrange(0, i as int),
            decreases batch@.len() - i,
        {
            self.samples.push_back(batch[i]);
            proof {
                assert(batch@.subrange(0, i + 1) == batch@.subrange(0, i as int).push(batch@[i as int]));
            }
            i = i + 1;
        }
        proof {
            assert(batch@.subrange(0, batch@.len() as int) == batch@);
        }
    }

    /// Removes and returns the two oldest samples when at least two are queued.
    pub fn pop_pair(&mut self) -> (r: Option<(SampleBits, SampleBits)>)
        ensures
            old(self)@.len() >= 2 ==> r == Some((old(self)@[0], old(self)@[1]))
                && final(self)@ == old(self)@.subrange(2, old(self)@.len() as int),
            old(self)@.len() < 2 ==> r.is_none() && final(self)@ == old(self)@,
    {
        if self.samples.len() < 2 {
            None
        } else {
            Some(self.take_pair())
        }
    }

    /// Removes the two oldest samples of a queue that holds at least two.
    pub fn take_pair(&mut self) -> (r: (SampleBits, SampleBits))
        requires
            old(self)@.len() >= 2,
        ensures
            r == (old(self)@[0], old(self)@[1]),
            final(self)@ == old(self)@.subrange(2, old(self)@.len() as int),
    {
        let a = self.samples.pop_front();
        let b = self.samples.pop_front();
        proof {
            assert(old(self)@.subrange(1, old(self)@.len() as int).subrange(1, old(self)@.len() - 1)
                == old(self)@.subrange(2, old(self)@.len() as int));
        }
        match (a, b) {
            (Some(x), Some(y)) => (x, y),
            _ => (0, 0),
        }
    }

    /// Drops every queued sample.
    pub fn clear(&mut self)
        ensures
            final(self)@ == Seq::<SampleBits>::empty(),
    {
        self.samples.clear();
    }
}

} // verus!
