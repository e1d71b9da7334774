//! Little-endian field encodings and helpers for the append-only output
//! sink (a growable byte buffer written strictly front to back, plus an
//! in-place overwrite used to fill a header field once its final value
//! is known).

use vstd::pervasive::VecAdditionalExecFns;
use vstd::prelude::*;

verus! {

/// The two little-endian bytes of a 16-bit value.
pub open spec fn le16(x: u16) -> Seq<u8> {
    seq![(x & 0xFF) as u8, ((x >> 8) & 0xFF) as u8]
}

/// The four little-endian bytes of a 32-bit value.
pub open spec fn le32(x: u32) -> Seq<u8> {
    seq![
        (x & 0xFF) as u8,
        ((x >> 8) & 0xFF) as u8,
        ((x >> 16) & 0xFF) as u8,
        ((x >> 24) & 0xFF) as u8,
    ]
}

/// Appends the two little-endian bytes of `x` to the sink.
pub fn push_u16(out: &mut Vec<u8>, x: u16)
    ensures
        final(out)@ == old(out)@ + le16(x),
{
    out.push((x & 0xFF) as u8);
    out.push(((x >> 8) & 0xFF) as u8);
    proof {
        assert(out@ =~= old(out)@ + le16(x));
    }
}

/// Appends the four little-endian bytes of `x` to the sink.
pub fn push_u32(out: &mut Vec<u8>, x: u32)
    ensures
        final(out)@ == old(out)@ + le32(x),
{
    out.push((x & 0xFF) as u8);
    out.push(((x >> 8) & 0xFF) as u8);
    out.push(((x >> 16) & 0xFF) as u8);
    out.push(((x >> 24) & 0xFF) as u8);
    proof {
        assert(out@ =~= old(out)@ + le32(x));
    }
}

/// Appends a whole byte slice to the sink.
pub fn push_bytes(out: &mut Vec<u8>, data: &[u8])
    ensures
        final(out)@ == old(out)@ + data@,
{
    let mut i: usize = 0;
    while i < data.len()
        invariant
            0 <= i <= data@.len(),
            out@ == old(out)@ + data@.subrange(0, i as int),
        decreases data@.len() - i,
    {
        out.push(data[i]);
        proof {
            assert(old(out)@ + data@.subrange(0, i + 1) =~= (old(out)@ + data@.subrange(
                0,
                i as int,
            )).push(data@[i as int]));
        }
        i = i + 1;
    }
    proof {
        assert(data@.subrange(0, data@.len() as int) =~= data@);
    }
}

/// Overwrites four bytes of the sink, at `at`, with the little-endian
/// bytes of `x`.  Everything before and after the overwritten window is
/// unchanged.
pub fn set_u32_at(out: &mut Vec<u8>, at: usize, x: u32)
    requires
        at + 4 <= old(out)@.len(),
    ensures
        final(out)@ == old(out)@.subrange(0, at as int) + le32(x) + old(out)@.subrange(
            at as int + 4,
            old(out)@.len() as int,
        ),
{
    let n = out.len();
    proof {
        assert(at + 4 <= n);
    }
    out.set(at, (x & 0xFF) as u8);
    out.set(at + 1, ((x >> 8) & 0xFF) as u8);
    out.set(at + 2, ((x >> 16) & 0xFF) as u8);
    out.set(at + 3, ((x >> 24) & 0xFF) as u8);
    proof {
        assert(out@ =~= old(out)@.subrange(0, at as int) + le32(x) + old(out)@.subrange(
            at as int + 4,
            old(out)@.len() as int,
        ));
    }
}

} // verus!
