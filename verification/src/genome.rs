//! Probabilistic genome-merge primitives.
//!
//! A newborn cell's heritable state is derived from the genomes of its live
//! neighbors ("parents", at most 8). For a bit-vector genome, each bit is
//! decided by a population-proportional probabilistic vote: a bit held by
//! `ones` of the `ones + zeros` parents is inherited with probability
//! `ones / (ones + zeros)`, so a minority allele still has a chance to
//! propagate. For a scalar genome, the parents' values are averaged, then
//! optionally resampled around the mean.

use vstd::prelude::*;
use vstd::pervasive::VecAdditionalExecFns;
use crate::bits::BitSet8;
use crate::rng::Random;

verus! {

/// The scalar genome scale: a `FractionGene` value of `FRACTION_ONE` stands
/// for the real number one.
pub const FRACTION_ONE: u32 = 1_000_000;

/// How many of the genomes hold bit `i` set.
pub open spec fn count_ones_at(genes: Seq<BitSet8Gene>, i: u8) -> int
    decreases genes.len(),
{
    if genes.len() == 0 {
        0
    } else {
        count_ones_at(genes.drop_last(), i) + if genes.last().value.bit_spec(i) {
            1int
        } else {
            0int
        }
    }
}

/// The tally lies between zero and the number of genomes.
pub proof fn lemma_count_ones_at_bound(genes: Seq<BitSet8Gene>, i: u8)
    ensures
        0 <= count_ones_at(genes, i) <= genes.len(),
    decreases genes.len(),
{
    if genes.len() > 0 {
        lemma_count_ones_at_bound(genes.drop_last(), i);
    }
}

/// Per-bit tallies of how many parents have the bit set vs. clear; a
/// transient aggregate used only during a merge.
pub struct BitCountsMap {
    ones: Vec<u32>,
    zeros: Vec<u32>,
}

impl BitCountsMap {
    pub closed spec fn wf(self) -> bool {
        self.ones@.len() == 8 && self.zeros@.len() == 8
    }

    /// How many tallied genomes had bit `i` set.
    pub closed spec fn ones_at(self, i: int) -> int {
        self.ones@[i] as int
    }

    /// How many tallied genomes had bit `i` clear.
    pub closed spec fn zeros_at(self, i: int) -> int {
        self.zeros@[i] as int
    }

    pub fn new() -> (r: BitCountsMap)
        ensures
            r.wf(),
            forall|i: int| 0 <= i < 8 ==> r.ones_at(i) == 0 && r.zeros_at(i) == 0,
    {
        let mut ones: Vec<u32> = Vec::new();
        let mut zeros: Vec<u32> = Vec::new();
        for k in 0..8usize
            invariant
                ones@.len() == k,
                zeros@.len() == k,
                forall|i: int| 0 <= i < k ==> ones@[i] == 0 && zeros@[i] == 0,
        {
            ones.push(0);
            zeros.push(0);
        }
        BitCountsMap { ones, zeros }
    }

    /// The `ones` tally of one bit position.
    pub fn ones(&self, i: usize) -> (r: u32)
        requires
            self.wf(),
            i < 8,
        ensures
            r == self.ones_at(i as int),
    {
        self.ones[i]
    }

    /// The `zeros` tally of one bit position.
    pub fn zeros(&self, i: usize) -> (r: u32)
        requires
            self.wf(),
            i < 8,
        ensures
            r == self.zeros_at(i as int),
    {
        self.zeros[i]
    }

    /// Tallies one genome: for each bit position, bumps the `ones` or the
    /// `zeros` count according to the genome's bit.
    pub fn increment(&mut self, bits: &BitSet8)
        requires
            old(self).wf(),
            forall|i: int| 0 <= i < 8 ==> old(self).ones_at(i) + old(self).zeros_at(i)
                < u32::MAX,
        ensures
            final(self).wf(),
            forall|i: int| 0 <= i < 8 ==> final(self).ones_at(i) == old(self).ones_at(i) + (
            if bits.bit_spec(i as u8) {
                1int
            } else {
                0int
            }),
            forall|i: int| 0 <= i < 8 ==> final(self).zeros_at(i) == old(self).zeros_at(i) + (
            if bits.bit_spec(i as u8) {
                0int
            } else {
                1int
            }),
    {
        for k in 0..8usize
            invariant
                self.wf(),
                forall|i: int| 0 <= i < 8 ==> old(self).ones_at(i) + old(self).zeros_at(i)
                    < u32::MAX,
                forall|i: int| k <= i < 8 ==> self.ones_at(i) == old(self).ones_at(i)
                    && self.zeros_at(i) == old(self).zeros_at(i),
                forall|i: int| 0 <= i < k ==> self.ones_at(i) == old(self).ones_at(i) + (
                if bits.bit_spec(i as u8) {
                    1int
                } else {
                    0int
                }),
                forall|i: int| 0 <= i < k ==> self.zeros_at(i) == old(self).zeros_at(i) + (
                if bits.bit_spec(i as u8) {
                    0int
                } else {
                    1int
                }),
        {
            proof {
                assert(self.ones_at(k as int) == old(self).ones_at(k as int));
                assert(self.zeros_at(k as int) == old(self).zeros_at(k as int));
                assert(old(self).ones_at(k as int) + old(self).zeros_at(k as int) < u32::MAX);
            }
            let ghost pre = *self;
            if bits.is_bit_set(k) {
                let v = self.ones[k];
                self.ones.set(k, v + 1);
            } else {
                let v = self.zeros[k];
                self.zeros.set(k, v + 1);
            }
            proof {
                assert forall|i: int| 0 <= i < k + 1 implies self.ones_at(i) == old(self).ones_at(
                    i) + (if bits.bit_spec(i as u8) {
                    1int
                } else {
                    0int
                }) && self.zeros_at(i) == old(self).zeros_at(i) + (if bits.bit_spec(i as u8) {
                    0int
                } else {
                    1int
                }) by {
                    if i < k {
                        assert(self.ones_at(i) == pre.ones_at(i));
                        assert(self.zeros_at(i) == pre.zeros_at(i));
                    } else {
                        assert(i == k);
                    }
                }
            }
        }
    }

    /// The proportional vote for one bit: unanimous tallies are kept as they
    /// stand, and a split tally is decided by a Bernoulli draw with
    /// probability `num_ones / (num_ones + num_zeros)`. A split tally needs a
    /// random stream.
    pub fn merge_counts(num_ones: u32, num_zeros: u32, rand: &mut Option<Random>) -> (r: bool)
        requires
            num_ones as int + num_zeros as int <= u32::MAX,
            num_ones > 0 && num_zeros > 0 ==> (*old(rand)) is Some,
        ensures
            num_ones == 0 ==> !r,
            num_zeros == 0 && num_ones > 0 ==> r,
            (*final(rand)) is Some <==> (*old(rand)) is Some,
    {
        if num_ones == 0 {
            false
        } else if num_zeros == 0 {
            true
        } else {
            match rand {
                Some(r) => r.next_bool(num_ones, num_ones + num_zeros),
                None => vstd::pervasive::unreached(),
            }
        }
    }

    /// Decides all 8 bits by the proportional vote, then flips each bit
    /// independently with probability `mut_numer / mut_denom` when a random
    /// stream is present. With mutation probability zero, unanimous bits are
    /// exactly the tallied ones.
    pub fn as_bit_set(&self, rand: &mut Option<Random>, mut_numer: u32, mut_denom: u32) -> (r:
        BitSet8)
        requires
            self.wf(),
            mut_denom > 0,
            mut_numer <= mut_denom,
            forall|i: int| 0 <= i < 8 ==> self.ones_at(i) + self.zeros_at(i) <= u32::MAX,
            (*old(rand)) is None ==> forall|i: int| 0 <= i < 8 ==> self.ones_at(i) == 0
                || self.zeros_at(i) == 0,
        ensures
            forall|i: u8| i < 8 && (mut_numer == 0 || (*old(rand)) is None) && self.ones_at(
                i as int) == 0 ==> !r.bit_spec(i),
            forall|i: u8| i < 8 && (mut_numer == 0 || (*old(rand)) is None) && self.zeros_at(
                i as int) == 0 && self.ones_at(i as int) > 0 ==> r.bit_spec(i),
            (*final(rand)) is Some <==> (*old(rand)) is Some,
    {
        let ghost was_some = (*rand) is Some;
        let mut result = BitSet8::empty();
        for k in 0..8usize
            invariant
                self.wf(),
                mut_denom > 0,
                mut_numer <= mut_denom,
                forall|i: int| 0 <= i < 8 ==> self.ones_at(i) + self.zeros_at(i) <= u32::MAX,
                !was_some ==> forall|i: int| 0 <= i < 8 ==> self.ones_at(i) == 0 || self.zeros_at(
                    i) == 0,
                ((*rand) is Some) <==> was_some,
                forall|i: u8| k <= i < 8 ==> !result.bit_spec(i),
                forall|i: u8| i < k && (mut_numer == 0 || !was_some) && self.ones_at(i as int)
                    == 0 ==> !result.bit_spec(i),
                forall|i: u8| i < k && (mut_numer == 0 || !was_some) && self.zeros_at(i as int)
                    == 0 && self.ones_at(i as int) > 0 ==> result.bit_spec(i),
        {
            proof {
                assert(self.ones_at(k as int) + self.zeros_at(k as int) <= u32::MAX);
            }
            if Self::merge_counts(self.ones[k], self.zeros[k], rand) {
                result.set_bit(k);
            }
            match rand {
                Some(rr) => {
                    if rr.next_bool(mut_numer, mut_denom) {
                        result.flip_bit(k);
                    }
                },
                None => {},
            }
        }
        result
    }
}

/// An 8-bit-vector genome.
#[derive(Clone, Copy, Debug, PartialEq, Eq, Structural)]
pub struct BitSet8Gene {
    pub value: BitSet8,
}

impl BitSet8Gene {
    pub fn new(value: BitSet8) -> (r: BitSet8Gene)
        ensures
            r.value == value,
    {
        BitSet8Gene { value }
    }

    /// Merges 1 to 8 parent genomes bit by bit: a bit all parents hold is
    /// kept, a bit no parent holds stays clear, and a split bit is decided by
    /// the proportional vote; each decided bit is then flipped with
    /// probability `mut_numer / mut_denom`. Without a random stream, only an
    /// everywhere-unanimous parent set can be merged (a split vote and a
    /// mutation both need draws); with mutation probability zero, a single
    /// parent's genome is returned unchanged.
    pub fn merge(genes: &Vec<BitSet8Gene>, rand: &mut Option<Random>, mut_numer: u32,
        mut_denom: u32) -> (r: BitSet8Gene)
        requires
            1 <= genes@.len() <= 8,
            mut_denom > 0,
            mut_numer <= mut_denom,
            (*old(rand)) is None ==> forall|i: u8| i < 8 ==> count_ones_at(genes@, i) == 0
                || count_ones_at(genes@, i) == genes@.len(),
        ensures
            forall|i: u8| i < 8 && (mut_numer == 0 || (*old(rand)) is None) && count_ones_at(
                genes@, i) == 0 ==> !r.value.bit_spec(i),
            forall|i: u8| i < 8 && (mut_numer == 0 || (*old(rand)) is None) && count_ones_at(
                genes@, i) == genes@.len() ==> r.value.bit_spec(i),
            mut_numer == 0 && genes@.len() == 1 ==> r.value.bits == genes@[0].value.bits,
            (*final(rand)) is Some <==> (*old(rand)) is Some,
    {
        let mut bit_counts = BitCountsMap::new();
        let n = genes.len();
        for k in 0..n
            invariant
                n == genes@.len(),
                1 <= n <= 8,
                bit_counts.wf(),
                forall|i: int| 0 <= i < 8 ==> bit_counts.ones_at(i) == count_ones_at(
                    genes@.subrange(0, k as int), i as u8),
                forall|i: int| 0 <= i < 8 ==> bit_counts.ones_at(i) + bit_counts.zeros_at(i)
                    == k,
        {
            proof {
                assert forall|i: int| 0 <= i < 8 implies bit_counts.ones_at(i)
                    + bit_counts.zeros_at(i) < u32::MAX by {}
            }
            bit_counts.increment(&genes[k].value);
            proof {
                assert forall|i: int| 0 <= i < 8 implies bit_counts.ones_at(i) == count_ones_at(
                    genes@.subrange(0, k as int + 1), i as u8) by {
                    let pre = genes@.subrange(0, k as int);
                    let post = genes@.subrange(0, k as int + 1);
                    assert(post.drop_last() =~= pre);
                    assert(post.last() == genes@[k as int]);
                }
            }
        }
        proof {
            assert(genes@.subrange(0, n as int) =~= genes@);
        }
        let merged = bit_counts.as_bit_set(rand, mut_numer, mut_denom);
        proof {
            if mut_numer == 0 && genes@.len() == 1 {
                assert forall|i: u8| i < 8 implies count_ones_at(genes@, i) == 0 || count_ones_at(
                    genes@, i) == genes@.len() by {
                    lemma_count_ones_at_bound(genes@, i);
                }
                lemma_unanimous_merge(genes@, merged);
            }
        }
        BitSet8Gene { value: merged }
    }
}

/// In a tally of zero, no genome holds the bit; in a full tally, every
/// genome holds it.
pub proof fn lemma_count_ones_at_extremes(genes: Seq<BitSet8Gene>, i: u8)
    ensures
        count_ones_at(genes, i) == 0 ==> forall|j: int|
            0 <= j < genes.len() ==> !(#[trigger] genes[j]).value.bit_spec(i),
        count_ones_at(genes, i) == genes.len() ==> forall|j: int|
            0 <= j < genes.len() ==> (#[trigger] genes[j]).value.bit_spec(i),
    decreases genes.len(),
{
    if genes.len() > 0 {
        let dl = genes.drop_last();
        lemma_count_ones_at_extremes(dl, i);
        lemma_count_ones_at_bound(dl, i);
        if count_ones_at(genes, i) == 0 {
            assert(count_ones_at(dl, i) == 0 && !genes.last().value.bit_spec(i));
            assert forall|j: int| 0 <= j < genes.len() implies !(#[trigger] genes[j]).value.bit_spec(
                i,
            ) by {
                if j < genes.len() - 1 {
                    assert(genes[j] == dl[j]);
                } else {
                    assert(genes[j] == genes.last());
                }
            }
        }
        if count_ones_at(genes, i) == genes.len() {
            assert(count_ones_at(dl, i) == dl.len() && genes.last().value.bit_spec(i));
            assert forall|j: int| 0 <= j < genes.len() implies (#[trigger] genes[j]).value.bit_spec(
                i,
            ) by {
                if j < genes.len() - 1 {
                    assert(genes[j] == dl[j]);
                } else {
                    assert(genes[j] == genes.last());
                }
            }
        }
    }
}

/// A merged genome whose bits agree with an everywhere-unanimous parent set
/// equals the first parent's genome (the parents are then all identical).
pub proof fn lemma_unanimous_merge(genes: Seq<BitSet8Gene>, merged: BitSet8)
    requires
        1 <= genes.len(),
        forall|i: u8| i < 8 ==> count_ones_at(genes, i) == 0 || count_ones_at(genes, i)
            == genes.len(),
        forall|i: u8| i < 8 && count_ones_at(genes, i) == 0 ==> !merged.bit_spec(i),
        forall|i: u8| i < 8 && count_ones_at(genes, i) == genes.len() ==> merged.bit_spec(i),
    ensures
        merged == genes[0].value,
{
    let g = genes[0].value.bits;
    let m = merged.bits;
    assert forall|i: u8| i < 8 implies merged.bit_spec(i) == genes[0].value.bit_spec(i) by {
        lemma_count_ones_at_extremes(genes, i);
    }
    assert(merged.bit_spec(0) == genes[0].value.bit_spec(0));
    assert(merged.bit_spec(1) == genes[0].value.bit_spec(1));
    assert(merged.bit_spec(2) == genes[0].value.bit_spec(2));
    assert(merged.bit_spec(3) == genes[0].value.bit_spec(3));
    assert(merged.bit_spec(4) == genes[0].value.bit_spec(4));
    assert(merged.bit_spec(5) == genes[0].value.bit_spec(5));
    assert(merged.bit_spec(6) == genes[0].value.bit_spec(6));
    assert(merged.bit_spec(7) == genes[0].value.bit_spec(7));
    assert(m == g) by (bit_vector)
        requires
            (m & (1u8 << 0u8) != 0) == (g & (1u8 << 0u8) != 0),
            (m & (1u8 << 1u8) != 0) == (g & (1u8 << 1u8) != 0),
            (m & (1u8 << 2u8) != 0) == (g & (1u8 << 2u8) != 0),
            (m & (1u8 << 3u8) != 0) == (g & (1u8 << 3u8) != 0),
            (m & (1u8 << 4u8) != 0) == (g & (1u8 << 4u8) != 0),
            (m & (1u8 << 5u8) != 0) == (g & (1u8 << 5u8) != 0),
            (m & (1u8 << 6u8) != 0) == (g & (1u8 << 6u8) != 0),
            (m & (1u8 << 7u8) != 0) == (g & (1u8 << 7u8) != 0),
    ;
}

/// The sum of the scalar genome values.
pub open spec fn sum_values(genes: Seq<FractionGene>) -> int
    decreases genes.len(),
{
    if genes.len() == 0 {
        0
    } else {
        sum_values(genes.drop_last()) + genes.last().value as int
    }
}

/// A single scalar genome value in `[0, 1]`, held in fixed point as a count
/// of `FRACTION_ONE`-ths.
#[derive(Clone, Copy, Debug, PartialEq, Eq, Structural)]
pub struct FractionGene {
    pub value: u32,
}

impl FractionGene {
    /// A value within the unit interval.
    pub open spec fn wf(self) -> bool {
        self.value <= FRACTION_ONE
    }

    pub fn new(value: u32) -> (r: FractionGene)
        requires
            value <= FRACTION_ONE,
        ensures
            r.value == value,
            r.wf(),
    {
        FractionGene { value }
    }

    /// Merges 1 to 8 parent genomes: the result is the arithmetic mean of the
    /// parents' values (rounded down to the fixed-point grid) when no random
    /// stream is given, and otherwise a draw around that mean, truncated to
    /// the unit interval, with spread `mutation_stdev`.
    pub fn merge(genes: &Vec<FractionGene>, rand: &mut Option<Random>, mutation_stdev: u32) -> (r:
        FractionGene)
        requires
            1 <= genes@.len() <= 8,
            forall|j: int| 0 <= j < genes@.len() ==> (#[trigger] genes@[j]).wf(),
        ensures
            r.wf(),
            (*old(rand)) is None ==> r.value == sum_values(genes@) / genes@.len() as int,
            (*final(rand)) is Some <==> (*old(rand)) is Some,
    {
        let n = genes.len();
        let mut sum: u32 = 0;
        for k in 0..n
            invariant
                n == genes@.len(),
                1 <= n <= 8,
                forall|j: int| 0 <= j < genes@.len() ==> (#[trigger] genes@[j]).wf(),
                sum == sum_values(genes@.subrange(0, k as int)),
                sum <= k * FRACTION_ONE,
        {
            proof {
                let pre = genes@.subrange(0, k as int);
                let post = genes@.subrange(0, k as int + 1);
                assert(post.drop_last() =~= pre);
                assert(post.last() == genes@[k as int]);
                assert(k as int * FRACTION_ONE + FRACTION_ONE == (k as int + 1) * FRACTION_ONE)
                    by (nonlinear_arith);
            }
            sum = sum + genes[k].value;
        }
        proof {
            assert(genes@.subrange(0, n as int) =~= genes@);
            assert(sum as int / n as int <= FRACTION_ONE) by (nonlinear_arith)
                requires
                    1 <= n as int <= 8,
                    0 <= sum as int <= n as int * FRACTION_ONE,
                    FRACTION_ONE > 0,
            ;
            assert(sum as int / n as int >= 0) by (nonlinear_arith)
                requires
                    1 <= n as int,
                    0 <= sum as int,
            ;
        }
        let mean = sum / (n as u32);
        match rand {
            Some(rr) => {
                let drawn = rr.next_truncated_normal(mean, mutation_stdev, 0, FRACTION_ONE);
                FractionGene { value: drawn }
            },
            None => FractionGene { value: mean },
        }
    }
}

} // verus!
