//! Incremental CRC-32 (IEEE, reflected polynomial) over byte streams.
//!
//! The checksum of a byte sequence is defined by [`spec_crc32`]; the
//! executable accumulator [`Crc32`] is proved to compute exactly that
//! fold, however the input is chunked.

use vstd::prelude::*;

verus! {

/// Generator polynomial of CRC-32 in its reflected form.
pub const CRC32_POLY: u32 = 0xEDB88320;

/// One shift round of the bitwise CRC-32 computation: shift right, and
/// fold the polynomial in when a one bit falls out.
pub open spec fn crc_round(s: u32) -> u32 {
    if s & 1 == 1 {
        (s >> 1) ^ CRC32_POLY
    } else {
        s >> 1
    }
}

/// Folds one byte into the running CRC state: xor into the low bits,
/// then eight shift rounds.
pub open spec fn crc_push_byte(s: u32, b: u8) -> u32 {
    crc_round(crc_round(crc_round(crc_round(crc_round(crc_round(crc_round(crc_round(
        s ^ (b as u32),
    ))))))))
}

/// Folds a whole byte sequence into the running CRC state, front to back.
pub open spec fn crc_fold(s: u32, bytes: Seq<u8>) -> u32
    decreases bytes.len(),
{
    if bytes.len() == 0 {
        s
    } else {
        crc_fold(crc_push_byte(s, bytes[0]), bytes.drop_first())
    }
}

/// The CRC-32 checksum of a byte sequence: fold starting from the
/// all-ones state, then invert.
pub open spec fn spec_crc32(bytes: Seq<u8>) -> u32 {
    !crc_fold(0xFFFFFFFFu32, bytes)
}

/// Folding a concatenation equals folding the two parts in order, from
/// any starting state.  Applied repeatedly this says the checksum is
/// independent of how the input is chunked: feeding a sequence in any
/// pieces yields the same final state as one combined fold.
pub proof fn lemma_crc_fold_concat(s: u32, a: Seq<u8>, b: Seq<u8>)
    ensures
        crc_fold(s, a + b) == crc_fold(crc_fold(s, a), b),
    decreases a.len(),
{
    if a.len() == 0 {
        assert(a + b =~= b);
    } else {
        assert((a + b)[0] == a[0]);
        assert((a + b).drop_first() =~= a.drop_first() + b);
        lemma_crc_fold_concat(crc_push_byte(s, a[0]), a.drop_first(), b);
    }
}

/// Folding one more byte at the back goes through [`crc_push_byte`].
pub proof fn lemma_crc_fold_push(s: u32, bytes: Seq<u8>, b: u8)
    ensures
        crc_fold(s, bytes.push(b)) == crc_push_byte(crc_fold(s, bytes), b),
    decreases bytes.len(),
{
    if bytes.len() == 0 {
        assert(bytes.push(b).drop_first() =~= Seq::<u8>::empty());
        assert(bytes.push(b)[0] == b);
        assert(crc_fold(s, bytes.push(b)) == crc_fold(
            crc_push_byte(s, b),
            Seq::<u8>::empty(),
        ));
        assert(crc_fold(crc_push_byte(s, b), Seq::<u8>::empty()) == crc_push_byte(s, b));
    } else {
        assert(bytes.push(b)[0] == bytes[0]);
        assert(bytes.push(b).drop_first() =~= bytes.drop_first().push(b));
        assert(crc_fold(s, bytes.push(b)) == crc_fold(
            crc_push_byte(s, bytes[0]),
            bytes.drop_first().push(b),
        ));
        lemma_crc_fold_push(crc_push_byte(s, bytes[0]), bytes.drop_first(), b);
        assert(crc_fold(s, bytes) == crc_fold(crc_push_byte(s, bytes[0]), bytes.drop_first()));
    }
}

/// Incremental CRC-32 accumulator.
pub struct Crc32 {
    state: u32,
}

impl Crc32 {
    /// The running fold state: `crc_fold` of the initial all-ones state
    /// over every byte seen so far.
    pub closed spec fn folded(self) -> u32 {
        self.state
    }

    /// A fresh accumulator, in the identity state: no bytes seen.
    pub fn new() -> (c: Crc32)
        ensures
            c.folded() == 0xFFFFFFFFu32,
    {
        Crc32 { state: 0xFFFFFFFF }
    }

    /// One executable shift round.
    fn round(s: u32) -> (r: u32)
        ensures
            r == crc_round(s),
    {
        if s & 1 == 1 {
            (s >> 1) ^ CRC32_POLY
        } else {
            s >> 1
        }
    }

    /// Folds one byte into a state value.
    fn push_byte(s: u32, b: u8) -> (r: u32)
        ensures
            r == crc_push_byte(s, b),
    {
        let mut t: u32 = s ^ (b as u32);
        t = Self::round(t);
        t = Self::round(t);
        t = Self::round(t);
        t = Self::round(t);
        t = Self::round(t);
        t = Self::round(t);
        t = Self::round(t);
        t = Self::round(t);
        t
    }

    /// Folds a chunk of bytes into the accumulator.  Feeding the same
    /// bytes in any chunking leaves the accumulator in the same state.
    pub fn update(&mut self, data: &[u8])
        ensures
            final(self).folded() == crc_fold(old(self).folded(), data@),
    {
        let ghost s0 = self.state;
        let mut i: usize = 0;
        while i < data.len()
            invariant
                0 <= i <= data@.len(),
                self.state == crc_fold(s0, data@.subrange(0, i as int)),
            decreases data@.len() - i,
        {
            proof {
                assert(data@.subrange(0, i + 1) =~= data@.subrange(0, i as int).push(data@[i as int]));
                lemma_crc_fold_push(s0, data@.subrange(0, i as int), data@[i as int]);
            }
            self.state = Self::push_byte(self.state, data[i]);
            i = i + 1;
        }
        proof {
            assert(data@.subrange(0, data@.len() as int) =~= data@);
        }
    }

    /// The finished 32-bit checksum of all bytes seen since [`Crc32::new`].
    pub fn finalize(&self) -> (r: u32)
        ensures
            r == !self.folded(),
    {
        !self.state
    }
}

} // verus!
