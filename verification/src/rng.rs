//! A seedable, splittable random stream.
//!
//! `Random` wraps rand's `SmallRng`. The generator's state is opaque here, so
//! contracts state only what holds of every outcome of a draw: a bound for a
//! uniform draw, the forced outcomes of a zero- or one-probability Bernoulli
//! draw, and the range of a truncated draw. Probabilities are rationals
//! `numer / denom`, so that a probability of exactly zero or one is a plain
//! integer fact rather than a rounded one.

use vstd::prelude::*;
use rand::Rng;
use rand::SeedableRng;
use rand::seq::SliceRandom;

verus! {

/// Declares rand's `SmallRng` — a small-state, fast, non-portable PRNG —
/// so that `Random` can hold one; its state stays opaque to verification.
#[verifier::external_type_specification]
#[verifier::external_body]
pub struct ExSmallRng(rand::rngs::SmallRng);

/// Relies on rand's `SeedableRng::seed_from_u64` for `SmallRng`: builds a
/// generator from the integer seed alone.
#[verifier::external_body]
fn small_rng_from_seed(seed: u64) -> rand::rngs::SmallRng {
    rand::rngs::SmallRng::seed_from_u64(seed)
}

/// Relies on rand's `SeedableRng::from_os_rng` for `SmallRng`: builds a
/// generator seeded from the operating system's entropy source.
#[verifier::external_body]
fn small_rng_from_entropy() -> rand::rngs::SmallRng {
    rand::rngs::SmallRng::from_os_rng()
}

/// Relies on rand's `SeedableRng::from_rng` for `SmallRng`: builds a child
/// generator from draws on the parent, advancing the parent.
#[verifier::external_body]
fn small_rng_fork(rng: &mut rand::rngs::SmallRng) -> rand::rngs::SmallRng {
    rand::rngs::SmallRng::from_rng(rng)
}

/// Relies on rand's `Rng::random_range` over `0..bound`: for a non-empty
/// range it returns a uniform value within the range.
#[verifier::external_body]
fn small_rng_below(rng: &mut rand::rngs::SmallRng, bound: u32) -> (r: u32)
    requires
        bound > 0,
    ensures
        r < bound,
{
    rng.random_range(0..bound)
}

/// Relies on rand's `SliceRandom::shuffle`: permutes the elements in place,
/// so the result holds the same elements as the argument.
#[verifier::external_body]
fn small_rng_shuffle3(rng: &mut rand::rngs::SmallRng, color: [u8; 3]) -> (r: [u8; 3])
    ensures
        r@.to_multiset() == color@.to_multiset(),
{
    let mut c = color;
    c.shuffle(rng);
    c
}

/// A seedable, splittable random stream with Bernoulli, uniform and
/// truncated-bell-curve draws, and deterministic forking.
pub struct Random {
    rng: rand::rngs::SmallRng,
}

impl Random {
    /// A stream seeded from the operating system's entropy source.
    pub fn new() -> Random {
        Random { rng: small_rng_from_entropy() }
    }

    /// A stream whose draws are a function of the seed alone.
    pub fn from_seed(seed: u64) -> Random {
        Random { rng: small_rng_from_seed(seed) }
    }

    /// Derives an independent child stream from this one, advancing this
    /// stream so that repeated forks never alias.
    pub fn fork(&mut self) -> Random {
        Random { rng: small_rng_fork(&mut self.rng) }
    }

    /// Bernoulli draw with probability `numer / denom`. Probability zero
    /// always yields `false` and probability one always yields `true`.
    pub fn next_bool(&mut self, numer: u32, denom: u32) -> (r: bool)
        requires
            denom > 0,
            numer <= denom,
        ensures
            numer == 0 ==> !r,
            numer == denom ==> r,
    {
        let draw = small_rng_below(&mut self.rng, denom);
        draw < numer
    }

    /// Uniform draw from the half-open range `[low, high)`.
    pub fn next_in_range(&mut self, low: u32, high: u32) -> (r: u32)
        requires
            low < high,
        ensures
            low <= r < high,
    {
        low + small_rng_below(&mut self.rng, high - low)
    }

    /// Uniform draw from the closed range `[low, high]`.
    pub fn next_in_range_inclusive(&mut self, low: u32, high: u32) -> (r: u32)
        requires
            low <= high,
            high - low < 0xffff_ffff,
        ensures
            low <= r <= high,
    {
        low + small_rng_below(&mut self.rng, high - low + 1)
    }

    /// A draw with mean `mean` and spread `stdev`, shaped as the sum of
    /// twelve uniform draws (a bell-curve approximation whose standard
    /// deviation is `stdev`); the result never strays more than six spreads
    /// from the mean.
    pub fn next_normal(&mut self, mean: i64, stdev: u32) -> (r: i64)
        requires
            -0x2000_0000_0000_0000 <= mean <= 0x2000_0000_0000_0000,
        ensures
            mean - 6 * stdev <= r <= mean + 6 * stdev,
    {
        if stdev == 0 {
            return mean;
        }
        let mut sum: u64 = 0;
        for i in 0..12usize
            invariant
                stdev > 0,
                sum <= i as int * stdev as int,
        {
            proof {
                assert(i as int * stdev as int <= 11 * stdev as int) by (nonlinear_arith)
                    requires
                        0 <= i as int <= 11,
                        0 <= stdev as int,
                ;
            }
            sum = sum + (small_rng_below(&mut self.rng, stdev) as u64);
            proof {
                assert((i as int + 1) * stdev as int == i as int * stdev as int + stdev as int)
                    by (nonlinear_arith);
            }
        }
        let offset: i64 = (sum as i64) - 6 * (stdev as i64);
        mean + offset
    }

    /// A draw shaped as `next_normal` around `mean`, retried until it falls
    /// within `[low, high]`. After a fixed number of failed attempts the mean
    /// itself, pressed into the bounds, is returned, so the call always
    /// terminates.
    pub fn next_truncated_normal(&mut self, mean: u32, stdev: u32, low: u32, high: u32) -> (r: u32)
        requires
            low <= high,
        ensures
            low <= r <= high,
    {
        for _attempt in 0..16usize
            invariant
                low <= high,
        {
            let draw = self.next_normal(mean as i64, stdev);
            if low as i64 <= draw && draw <= high as i64 {
                return draw as u32;
            }
        }
        if mean < low {
            low
        } else if mean > high {
            high
        } else {
            mean
        }
    }

    /// Reorders the three channels of a color at random; the result holds
    /// the same three channel values.
    pub fn shuffle_color_rgb(&mut self, color: [u8; 3]) -> (r: [u8; 3])
        ensures
            r@.to_multiset() == color@.to_multiset(),
    {
        small_rng_shuffle3(&mut self.rng, color)
    }

    /// Forks `count` child streams from `rand` strictly in index order, or
    /// hands out `count` absent streams when `rand` is absent. Pre-forking in
    /// a fixed order is what makes row-parallel output reproducible for a
    /// fixed seed regardless of scheduling.
    pub fn multi_fork_option(rand: &mut Option<Random>, count: u32) -> (r: Vec<Option<Random>>)
        ensures
            r@.len() == count,
            forall|j: int| 0 <= j < count ==> ((#[trigger] r@[j]) is Some <==> (*old(
                rand,
            )) is Some),
            (*final(rand)) is Some <==> (*old(rand)) is Some,
    {
        let ghost was_some = (*rand) is Some;
        let mut result: Vec<Option<Random>> = Vec::new();
        for _i in 0..count
            invariant
                result@.len() == _i,
                forall|j: int| 0 <= j < _i ==> ((#[trigger] result@[j]) is Some <==> was_some),
                (*rand) is Some <==> was_some,
        {
            match rand {
                Some(parent) => {
                    let child = parent.fork();
                    result.push(Some(child));
                },
                None => {
                    result.push(None);
                },
            }
        }
        result
    }
}

} // verus!
