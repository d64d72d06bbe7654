use crate::ring::SampleBits;
use vstd::prelude::*;

verus! {

/// The 32-bit word stored little-endian at bytes `4 * i .. 4 * i + 4`.
pub open spec fn le_word(bytes: Seq<u8>, i: int) -> SampleBits {
    (bytes[4 * i] + 256 * bytes[4 * i + 1] + 65536 * bytes[4 * i + 2] + 16777216 * bytes[4
        * i + 3]) as SampleBits
}

/// A byte buffer read as whole little-endian 4-byte samples; trailing bytes
/// that do not fill a sample are ignored.
pub open spec fn decoded(bytes: Seq<u8>) -> Seq<SampleBits> {
    Seq::new(bytes.len() / 4, |i: int| le_word(bytes, i))
}

/// Samples of instant `i` over the planes, in plane order, skipping planes
/// that hold fewer than `i + 1` samples; only the first `k` planes are read.
pub open spec fn instant(planes: Seq<Seq<SampleBits>>, i: int, k: nat) -> Seq<SampleBits>
    decreases k,
{
    if k == 0 {
        Seq::empty()
    } else {
        let rest = instant(planes, i, (k - 1) as nat);
        if i < planes[k - 1].len() {
            rest.push(planes[k - 1][i])
        } else {
            rest
        }
    }
}

/// The first `n` instants of a planar buffer, interleaved.
pub open spec fn interleaved_prefix(planes: Seq<Seq<SampleBits>>, n: nat) -> Seq<SampleBits>
    decreases n,
{
    if n == 0 {
        Seq::empty()
    } else {
        interleaved_prefix(planes, (n - 1) as nat) + instant(planes, n - 1, planes.len())
    }
}

/// A planar buffer interleaved over as many instants as its first plane
/// holds; no planes give no samples.
pub open spec fn interleaved(planes: Seq<Seq<SampleBits>>) -> Seq<SampleBits> {
    if planes.len() == 0 {
        Seq::empty()
    } else {
        interleaved_prefix(planes, planes[0].len())
    }
}

/// Reads a byte buffer as little-endian 4-byte samples.
pub fn decode_le_samples(bytes: &[u8]) -> (r: Vec<SampleBits>)
    ensures
        r@ == decoded(bytes@),
{
    let total = bytes.len();
    let n = total / 4;
    let mut out: Vec<SampleBits> = Vec::new();
    let mut i: usize = 0;
    while i < n
        invariant
            total == bytes@.len(),
            n == bytes@.len() / 4,
            i <= n,
            out@ == decoded(bytes@).subrange(0, i as int),
        decreases n - i,
    {
        proof {
            assert(4 * i + 4 <= bytes@.len()) by (nonlinear_arith)
                requires
                    i < n,
                    n == bytes@.len() / 4,
            ;
        }
        let b = 4 * i;
        let w: u32 = (bytes[b] as u32) + 256 * (bytes[b + 1] as u32) + 65536 * (bytes[b + 2] as u32)
            + 16777216 * (bytes[b + 3] as u32);
        out.push(w);
        proof {
            assert(decoded(bytes@).subrange(0, i + 1) =~= decoded(bytes@).subrange(0, i as int).push(
                w,
            ));
        }
        i = i + 1;
    }
    proof {
        assert(decoded(bytes@).subrange(0, n as int) =~= decoded(bytes@));
    }
    out
}

/// Interleaves planar channel buffers: instant by instant, for as many
/// instants as the first plane holds, each plane in order contributes its
/// sample when it has one.
pub fn interleave_planar(planes: &Vec<Vec<SampleBits>>) -> (r: Vec<SampleBits>)
    ensures
        r@ == interleaved(planes@.map_values(|p: Vec<SampleBits>| p@)),
{
    let ghost ps = planes@.map_values(|p: Vec<SampleBits>| p@);
    let mut out: Vec<SampleBits> = Vec::new();
    if planes.len() == 0 {
        return out;
    }
    let len = planes[0].len();
    let mut i: usize = 0;
    while i < len
        invariant
            ps == planes@.map_values(|p: Vec<SampleBits>| p@),
            planes@.len() > 0,
            len == ps[0].len(),
            i <= len,
            out@ == interleaved_prefix(ps, i as nat),
        decreases len - i,
    {
        let ghost start = out@;
        let mut k: usize = 0;
        while k < planes.len()
            invariant
                ps == planes@.map_values(|p: Vec<SampleBits>| p@),
                i < len,
                k <= planes@.len(),
                start == interleaved_prefix(ps, i as nat),
                out@ == start + instant(ps, i as int, k as nat),
            decreases planes@.len() - k,
        {
            let plane = &planes[k];
            if i < plane.len() {
                out.push(plane[i]);
                proof {
                    assert(out@ =~= start + instant(ps, i as int, (k + 1) as nat));
                }
            } else {
                proof {
                    assert(instant(ps, i as int, (k + 1) as nat) == instant(ps, i as int, k as nat));
                }
            }
            k = k + 1;
        }
        i = i + 1;
    }
    out
}

/// Gathers one batch of system samples from its buffers: a single buffer
/// is already interleaved; several buffers are planes, one per channel.
pub fn assemble_batch(buffers: &Vec<Vec<u8>>) -> (r: Vec<SampleBits>)
    ensures
        r@ == interleaved(buffers@.map_values(|b: Vec<u8>| decoded(b@))),
{
    let mut planes: Vec<Vec<SampleBits>> = Vec::new();
    let mut i: usize = 0;
    while i < buffers.len()
        invariant
            i <= buffers@.len(),
            planes@.len() == i,
            forall|j: int| 0 <= j < i ==> #[trigger] planes@[j]@ == decoded(buffers@[j]@),
        decreases buffers@.len() - i,
    {
        let p = decode_le_samples(buffers[i].as_slice());
        planes.push(p);
        i = i + 1;
    }
    let r = interleave_planar(&planes);
    proof {
        assert(planes@.map_values(|p: Vec<SampleBits>| p@) =~= buffers@.map_values(
            |b: Vec<u8>| decoded(b@),
        ));
    }
    r
}

} // verus!
