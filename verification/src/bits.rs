//! An 8-bit flag vector: one bit per discrete trigger condition.

use vstd::prelude::*;
use crate::rng::Random;

verus! {

/// Whether bit `i` of `bits` is set, for `i < 8`.
pub open spec fn u8_bit(bits: u8, i: u8) -> bool {
    bits & (1u8 << i) != 0
}

/// How many of the low `n` bits of `bits` are set.
pub open spec fn count_bits_upto(bits: u8, n: int) -> int
    decreases n,
{
    if n <= 0 {
        0
    } else {
        count_bits_upto(bits, n - 1) + if u8_bit(bits, (n - 1) as u8) {
            1int
        } else {
            0int
        }
    }
}

/// At most `n` of the low `n` bits are set.
pub proof fn lemma_count_bits_upto_bound(bits: u8, n: int)
    requires
        0 <= n,
    ensures
        0 <= count_bits_upto(bits, n) <= n,
    decreases n,
{
    if n > 0 {
        lemma_count_bits_upto_bound(bits, n - 1);
    }
}

/// An 8-bit flag vector (for example, bit `i` meaning "exactly `i + 1` live
/// neighbors").
#[derive(Clone, Copy, Debug, PartialEq, Eq, Structural)]
pub struct BitSet8 {
    pub bits: u8,
}

impl BitSet8 {
    /// Whether flag `i` is set, for `i < 8`.
    pub open spec fn bit_spec(self, i: u8) -> bool {
        u8_bit(self.bits, i)
    }

    /// How many of the 8 flags are set.
    pub open spec fn count_spec(self) -> int {
        count_bits_upto(self.bits, 8)
    }

    pub fn new(bits: u8) -> (r: BitSet8)
        ensures
            r.bits == bits,
    {
        BitSet8 { bits }
    }

    pub fn empty() -> (r: BitSet8)
        ensures
            r.bits == 0,
            forall|i: u8| i < 8 ==> !r.bit_spec(i),
    {
        proof {
            assert(forall|i: u8| i < 8 ==> (0u8 & (1u8 << i) == 0)) by (bit_vector);
        }
        BitSet8 { bits: 0 }
    }

    /// Draws each of the 8 flags independently with probability
    /// `numer / denom`. Probability zero clears every flag; probability one
    /// sets every flag.
    pub fn random(numer: u32, denom: u32, rand: &mut Random) -> (r: BitSet8)
        requires
            denom > 0,
            numer <= denom,
        ensures
            numer == 0 ==> r.bits == 0,
            numer == denom ==> r.bits == 0xff,
    {
        let mut result = BitSet8::empty();
        for i in 0..8usize
            invariant
                numer <= denom,
                denom > 0,
                forall|j: u8| j < 8 ==> (result.bit_spec(j) ==> j < i),
                numer == denom ==> forall|j: u8| j < i ==> result.bit_spec(j),
                numer == 0 ==> result.bits == 0,
        {
            if rand.next_bool(numer, denom) {
                result.set_bit(i);
            }
        }
        proof {
            if numer == denom {
                assert(result.bit_spec(0) && result.bit_spec(1) && result.bit_spec(2)
                    && result.bit_spec(3) && result.bit_spec(4) && result.bit_spec(5)
                    && result.bit_spec(6) && result.bit_spec(7));
                let b = result.bits;
                assert(b == 0xff) by (bit_vector)
                    requires
                        b & (1u8 << 0u8) != 0,
                        b & (1u8 << 1u8) != 0,
                        b & (1u8 << 2u8) != 0,
                        b & (1u8 << 3u8) != 0,
                        b & (1u8 << 4u8) != 0,
                        b & (1u8 << 5u8) != 0,
                        b & (1u8 << 6u8) != 0,
                        b & (1u8 << 7u8) != 0,
                ;
            }
        }
        result
    }

    pub fn is_bit_set(&self, index: usize) -> (r: bool)
        requires
            index < 8,
        ensures
            r == self.bit_spec(index as u8),
    {
        let i = index as u8;
        self.bits & (1u8 << i) != 0
    }

    pub fn set_bit(&mut self, index: usize)
        requires
            index < 8,
        ensures
            final(self).bits == old(self).bits | (1u8 << (index as u8)),
            forall|j: u8| j < 8 ==> final(self).bit_spec(j) == (j == index as u8
                || old(self).bit_spec(j)),
    {
        let i = index as u8;
        proof {
            let b = self.bits;
            assert(forall|j: u8| j < 8 && i < 8 ==> ((b | (1u8 << i)) & (1u8 << j) != 0) == (j == i
                || b & (1u8 << j) != 0)) by (bit_vector);
        }
        self.bits = self.bits | (1u8 << i);
    }

    pub fn flip_bit(&mut self, index: usize)
        requires
            index < 8,
        ensures
            final(self).bits == old(self).bits ^ (1u8 << (index as u8)),
            forall|j: u8| j < 8 ==> final(self).bit_spec(j) == if j == index as u8 {
                !old(self).bit_spec(j)
            } else {
                old(self).bit_spec(j)
            },
    {
        let i = index as u8;
        proof {
            let b = self.bits;
            assert(forall|j: u8| j < 8 && i < 8 ==> ((b ^ (1u8 << i)) & (1u8 << j) != 0) == (if j
                == i {
                !(b & (1u8 << j) != 0)
            } else {
                b & (1u8 << j) != 0
            })) by (bit_vector);
        }
        self.bits = self.bits ^ (1u8 << i);
    }

    pub fn count_set_bits(&self) -> (r: usize)
        ensures
            r == self.count_spec(),
            r <= 8,
    {
        let mut result: usize = 0;
        for i in 0..8usize
            invariant
                result == count_bits_upto(self.bits, i as int),
                result <= i,
        {
            if self.is_bit_set(i) {
                result += 1;
            }
        }
        result
    }

    /// How many of the 8 positions hold the same flag in `self` and `other`.
    pub fn count_matching_bits(&self, other: BitSet8) -> (r: usize)
        ensures
            r == 8 - count_bits_upto(self.bits ^ other.bits, 8),
            r <= 8,
    {
        let mismatched_bits = BitSet8::new(self.bits ^ other.bits);
        proof {
            lemma_count_bits_upto_bound(mismatched_bits.bits, 8);
        }
        8 - mismatched_bits.count_set_bits()
    }

    /// The high four flags as the high nibble, and the low four flags moved
    /// up into the high nibble.
    pub fn nybbles(&self) -> (r: (u8, u8))
        ensures
            r.0 == self.bits & 0xf0,
            r.1 == (self.bits & 0x0f) << 4u8,
    {
        (self.bits & 0xf0, (self.bits & 0x0f) << 4u8)
    }
}

} // verus!
