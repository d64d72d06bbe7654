use crate::ring::SampleBits;
use vstd::arithmetic::div_mod::{
    lemma_fundamental_div_mod, lemma_fundamental_div_mod_converse, lemma_mod_pos_bound,
};
use vstd::prelude::*;

verus! {

/// The rate every converter emits at, in frames per second.
pub const TARGET_RATE: u32 = 48000;

/// Number of frames, the last one possibly short, in `len` interleaved
/// samples of `channels` channels.
pub open spec fn frame_count(len: nat, channels: nat) -> nat {
    ((len + channels - 1) as nat) / channels
}

/// Left output sample of frame `j`: the frame's first sample.
pub open spec fn frame_left(data: Seq<SampleBits>, channels: nat, j: int) -> SampleBits {
    data[j * channels]
}

/// Right output sample of frame `j`: a mono frame is duplicated, otherwise
/// the second channel is taken and further channels are ignored.
pub open spec fn frame_right(data: Seq<SampleBits>, channels: nat, j: int) -> SampleBits {
    if channels == 1 {
        data[j * channels]
    } else {
        data[j * channels + 1]
    }
}

/// Number of output frames owed once `consumed` source frames have been
/// read: the least `e` with `e * source >= consumed * target`.
pub open spec fn frames_owed(consumed: nat, source: nat, target: nat) -> nat {
    ((consumed * target + source - 1) as nat) / source
}

/// Source frame (counted over the whole session) that output frame `e`
/// repeats: nearest-neighbour selection without interpolation.
pub open spec fn source_index(e: nat, source: nat, target: nat) -> int {
    (e * source) as int / (target as int)
}

/// A batch holds no trailing frame of one sample where a second channel is
/// needed.
pub open spec fn batch_ok(len: nat, channels: nat) -> bool {
    channels >= 1 && (channels == 1 || len % channels != 1)
}

/// Output frame `q` of a batch repeats the batch's frame that
/// `source_index` selects, which lies among its first `bound` frames.
pub open spec fn emits_frame(
    out: Seq<SampleBits>,
    data: Seq<SampleBits>,
    channels: nat,
    source: nat,
    consumed0: int,
    emitted0: int,
    q: int,
    bound: int,
) -> bool {
    let j = source_index((emitted0 + q) as nat, source, TARGET_RATE as nat) - consumed0;
    &&& 0 <= j < bound
    &&& out[2 * q] == frame_left(data, channels, j)
    &&& out[2 * q + 1] == frame_right(data, channels, j)
}

/// Drift-free nearest-neighbour converter from a source rate to
/// `TARGET_RATE`, producing interleaved stereo.
pub struct RateConverter {
    source_rate: u32,
    consumed: u64,
    emitted: u64,
}

impl RateConverter {
    pub closed spec fn source(&self) -> nat {
        self.source_rate as nat
    }

    /// Source frames read so far.
    pub closed spec fn consumed(&self) -> nat {
        self.consumed as nat
    }

    /// Stereo frames emitted so far.
    pub closed spec fn emitted(&self) -> nat {
        self.emitted as nat
    }

    pub closed spec fn wf(&self) -> bool {
        &&& self.source_rate > 0
        &&& self.consumed * TARGET_RATE <= self.emitted * self.source_rate
        &&& self.emitted * self.source_rate < self.consumed * TARGET_RATE + self.source_rate
        &&& self.consumed * TARGET_RATE <= u64::MAX
    }

    pub fn new(source_rate: u32) -> (r: RateConverter)
        requires
            source_rate > 0,
        ensures
            r.wf(),
            r.source() == source_rate,
            r.consumed() == 0,
            r.emitted() == 0,
    {
        RateConverter { source_rate, consumed: 0, emitted: 0 }
    }

    pub fn source_rate(&self) -> (r: u32)
        ensures
            r == self.source(),
    {
        self.source_rate
    }

    pub fn frames_consumed(&self) -> (r: u64)
        ensures
            r == self.consumed(),
    {
        self.consumed
    }

    pub fn frames_emitted(&self) -> (r: u64)
        ensures
            r == self.emitted(),
    {
        self.emitted
    }

    /// Whether the frames emitted so far fall short of the frames owed.
    fn owes_frame(&self) -> (r: bool)
        requires
            self.consumed * TARGET_RATE <= u64::MAX,
        ensures
            r == (self.emitted * self.source_rate < self.consumed * TARGET_RATE),
    {
        proof {
            assert(self.emitted * self.source_rate <= 0xffff_ffff_ffff_ffff * 0xffff_ffff)
                by (nonlinear_arith)
                requires
                    self.emitted <= 0xffff_ffff_ffff_ffff,
                    self.source_rate <= 0xffff_ffff,
            ;
        }
        let lhs: u128 = (self.emitted as u128) * (self.source_rate as u128);
        let rhs: u128 = (self.consumed as u128) * (TARGET_RATE as u128);
        lhs < rhs
    }

    /// Whether `convert` accepts a batch of `len` samples of `channels`
    /// channels: its last frame is usable and the frame counts stay in range.
    pub fn can_take(&self, len: usize, channels: u16) -> (r: bool)
        requires
            self.wf(),
        ensures
            r == (batch_ok(len as nat, channels as nat) && (self.consumed() + frame_count(
                len as nat,
                channels as nat,
            )) * TARGET_RATE <= u64::MAX),
    {
        if channels == 0 {
            return false;
        }
        let ch = channels as usize;
        if ch != 1 && len % ch == 1 {
            return false;
        }
        let whole = len / ch;
        let frames: u128 = if len % ch == 0 {
            whole as u128
        } else {
            whole as u128 + 1
        };
        proof {
            let x = (len + ch - 1) as int;
            let m = (len as int) % (ch as int);
            lemma_fundamental_div_mod(len as int, ch as int);
            lemma_mod_pos_bound(len as int, ch as int);
            assert((whole + 1) * ch == whole * ch + ch) by (nonlinear_arith);
            if m == 0 {
                lemma_fundamental_div_mod_converse(x, ch as int, whole as int, ch - 1);
            } else {
                lemma_fundamental_div_mod_converse(x, ch as int, whole + 1, m - 1);
            }
            assert(whole <= len) by (nonlinear_arith)
                requires
                    len == ch * whole + m,
                    m >= 0,
                    ch >= 1,
                    whole >= 0,
            ;
        }
        let total: u128 = self.consumed as u128 + frames;
        proof {
            assert(total * TARGET_RATE < 0x1_0000_0000_0000_0000_0000_0000) by (nonlinear_arith)
                requires
                    total <= 0x2_0000_0000_0000_0000,
                    TARGET_RATE == 48000,
            ;
        }
        total * (TARGET_RATE as u128) <= (u64::MAX as u128)
    }

    /// Reads one batch of interleaved source frames and returns the
    /// interleaved stereo frames now owed at the target rate.
    pub fn convert(&mut self, data: &[SampleBits], channels: u16) -> (out: Vec<SampleBits>)
        requires
            old(self).wf(),
            batch_ok(data@.len(), channels as nat),
            (old(self).consumed() + frame_count(data@.len(), channels as nat)) * TARGET_RATE
                <= u64::MAX,
        ensures
            final(self).wf(),
            final(self).source() == old(self).source(),
            final(self).consumed() == old(self).consumed() + frame_count(
                data@.len(),
                channels as nat,
            ),
            final(self).emitted() == frames_owed(
                final(self).consumed(),
                old(self).source(),
                TARGET_RATE as nat,
            ),
            out@.len() == 2 * (final(self).emitted() - old(self).emitted()),
            forall|q: int|
                0 <= q < final(self).emitted() - old(self).emitted() ==> #[trigger] emits_frame(
                    out@,
                    data@,
                    channels as nat,
                    old(self).source(),
                    old(self).consumed() as int,
                    old(self).emitted() as int,
                    q,
                    frame_count(data@.len(), channels as nat) as int,
                ),
    {
        let ghost c0 = self.consumed as int;
        let ghost e0 = self.emitted as int;
        let ghost ch = channels as int;
        let ghost s = self.source_rate as int;
        let ghost t = TARGET_RATE as int;
        let step = channels as usize;
        let mut out: Vec<SampleBits> = Vec::new();
        let mut base: usize = 0;
        let mut j: u64 = 0;
        while base < data.len()
            invariant
                self.wf(),
                self.source_rate == old(self).source_rate,
                s == self.source_rate,
                t == 48000,
                ch == step,
                ch == channels,
                c0 == old(self).consumed,
                e0 == old(self).emitted,
                batch_ok(data@.len(), channels as nat),
                (c0 + frame_count(data@.len(), channels as nat)) * t <= u64::MAX,
                base <= data@.len(),
                base == j * ch || (base == data@.len() && j * ch > data@.len()),
                j == 0 || (j - 1) * ch < data@.len(),
                self.consumed == c0 + j,
                j <= frame_count(data@.len(), channels as nat),
                e0 <= self.emitted,
                out@.len() == 2 * (self.emitted - e0),
                forall|q: int|
                    0 <= q < self.emitted - e0 ==> #[trigger] emits_frame(
                        out@,
                        data@,
                        ch as nat,
                        s as nat,
                        c0,
                        e0,
                        q,
                        j as int,
                    ),
            decreases data@.len() - base,
        {
            proof {
                assert(j < frame_count(data@.len(), ch as nat)) by {
                    lemma_frame_count(data@.len(), ch as nat, j as nat);
                }
                if ch >= 2 {
                    lemma_not_last_single(data@.len(), ch as nat, j as nat);
                }
            }
            let left = data[base];
            let right = if channels == 1 {
                data[base]
            } else {
                data[base + 1]
            };
            self.consumed = self.consumed + 1;
            proof {
                assert(self.consumed * t <= u64::MAX) by (nonlinear_arith)
                    requires
                        self.consumed <= c0 + frame_count(data@.len(), channels as nat),
                        (c0 + frame_count(data@.len(), channels as nat)) * t <= u64::MAX,
                        t > 0,
                ;
            }
            proof {
                assert forall|q: int|
                    0 <= q < self.emitted - e0 implies #[trigger] emits_frame(
                        out@,
                        data@,
                        ch as nat,
                        s as nat,
                        c0,
                        e0,
                        q,
                        j + 1,
                    ) by {
                    assert(emits_frame(out@, data@, ch as nat, s as nat, c0, e0, q, j as int));
                }
            }
            while self.owes_frame()
                invariant
                    self.source_rate == old(self).source_rate,
                    s == self.source_rate,
                    s > 0,
                    t == 48000,
                    self.consumed == c0 + j + 1,
                    self.consumed * t <= u64::MAX,
                    (self.consumed - 1) * t <= self.emitted * s,
                    self.emitted * s < self.consumed * t + s,
                    e0 <= self.emitted,
                    out@.len() == 2 * (self.emitted - e0),
                    left == frame_left(data@, ch as nat, j as int),
                    right == frame_right(data@, ch as nat, j as int),
                    self.emitted * s < 0x1_0000_0000_0000_0000_0000,
                    forall|q: int|
                        0 <= q < self.emitted - e0 ==> #[trigger] emits_frame(
                            out@,
                            data@,
                            ch as nat,
                            s as nat,
                            c0,
                            e0,
                            q,
                            j + 1,
                        ),
                decreases self.consumed * t + s - self.emitted * s,
            {
                proof {
                    lemma_source_index(self.emitted as nat, s as nat, t as nat, self.consumed as nat);
                    assert(self.emitted < self.consumed * t) by (nonlinear_arith)
                        requires
                            self.emitted * s < self.consumed * t,
                            s >= 1,
                            self.emitted >= 0,
                    ;
                }
                assert(self.emitted * s < self.consumed * t);
                let ghost q0 = self.emitted - e0;
                let ghost prev = out@;
                let ghost e_prev = self.emitted as int;
                out.push(left);
                out.push(right);
                self.emitted = self.emitted + 1;
                proof {
                    assert(self.emitted * s == e_prev * s + s) by (nonlinear_arith)
                        requires
                            self.emitted == e_prev + 1,
                    ;
                    assert forall|q: int|
                        0 <= q < self.emitted - e0 implies #[trigger] emits_frame(
                            out@,
                            data@,
                            ch as nat,
                            s as nat,
                            c0,
                            e0,
                            q,
                            j + 1,
                        ) by {
                        if q == q0 {
                            assert(out@[2 * q] == left);
                            assert(out@[2 * q + 1] == right);
                        } else {
                            assert(emits_frame(prev, data@, ch as nat, s as nat, c0, e0, q, j + 1));
                            assert(out@[2 * q] == prev[2 * q]);
                            assert(out@[2 * q + 1] == prev[2 * q + 1]);
                        }
                    }
                }
            }
            proof {
                assert((j + 1) * ch == j * ch + ch) by (nonlinear_arith);
            }
            base = if data.len() - base < step {
                data.len()
            } else {
                base + step
            };
            j = j + 1;
        }
        proof {
            lemma_frame_count_done(data@.len(), ch as nat, j as nat);
            lemma_owed(self.consumed as nat, s as nat, t as nat, self.emitted as nat);
            assert forall|q: int|
                0 <= q < self.emitted - e0 implies #[trigger] emits_frame(
                    out@,
                    data@,
                    ch as nat,
                    s as nat,
                    c0,
                    e0,
                    q,
                    frame_count(data@.len(), channels as nat) as int,
                ) by {
                assert(emits_frame(out@, data@, ch as nat, s as nat, c0, e0, q, j as int));
            }
        }
        out
    }
}

/// Drift law: after any run of batches the frames emitted are the rate
/// ratio times the frames consumed, rounded up, so they never lead the exact
/// count and trail it by less than one frame.
pub proof fn lemma_drift_bound(c: RateConverter)
    requires
        c.wf(),
    ensures
        c.consumed() * TARGET_RATE <= c.emitted() * c.source(),
        c.emitted() * c.source() < c.consumed() * TARGET_RATE + c.source(),
        c.emitted() == frames_owed(c.consumed(), c.source(), TARGET_RATE as nat),
{
    lemma_owed(c.consumed(), c.source(), TARGET_RATE as nat, c.emitted());
}

proof fn lemma_frame_count(len: nat, ch: nat, j: nat)
    requires
        ch >= 1,
        j * ch < len,
    ensures
        j < frame_count(len, ch),
{
    let x = (len + ch - 1) as int;
    lemma_fundamental_div_mod(x, ch as int);
    lemma_mod_pos_bound(x, ch as int);
    assert(j < frame_count(len, ch)) by (nonlinear_arith)
        requires
            x == ch * (x / (ch as int)) + x % (ch as int),
            0 <= x % (ch as int) < ch,
            x == len + ch - 1,
            j * ch < len,
            frame_count(len, ch) == x / (ch as int),
            ch >= 1,
    ;
}

proof fn lemma_frame_count_done(len: nat, ch: nat, j: nat)
    requires
        ch >= 1,
        j * ch >= len,
        j == 0 || (j - 1) * ch < len,
    ensures
        j == frame_count(len, ch),
{
    let x = (len + ch - 1) as int;
    assert((j - 1) * ch == j * ch - ch) by (nonlinear_arith);
    lemma_fundamental_div_mod_converse(x, ch as int, j as int, x - j * ch);
}

proof fn lemma_not_last_single(len: nat, ch: nat, j: nat)
    requires
        ch >= 2,
        j * ch < len,
        len % ch != 1,
    ensures
        j * ch + 1 < len,
{
    if j * ch + 1 == len {
        lemma_fundamental_div_mod_converse(len as int, ch as int, j as int, 1);
    }
}

proof fn lemma_source_index(e: nat, s: nat, t: nat, n: nat)
    requires
        t > 0,
        n >= 1,
        (n - 1) * t <= e * s,
        e * s < n * t,
    ensures
        source_index(e, s, t) == n - 1,
{
    assert((n - 1) * t == n * t - t) by (nonlinear_arith);
    lemma_fundamental_div_mod_converse((e * s) as int, t as int, n - 1, e * s - (n - 1) * t);
}

proof fn lemma_owed(c: nat, s: nat, t: nat, e: nat)
    requires
        s > 0,
        c * t <= e * s,
        e * s < c * t + s,
    ensures
        e == frames_owed(c, s, t),
{
    let x = (c * t + s - 1) as int;
    lemma_fundamental_div_mod_converse(x, s as int, e as int, x - e * s);
}

} // verus!
