//! Generic operators for scalar genes: uniform crossover and Gaussian
//! mutation with clamping. Genes live on the normalized scale where the
//! fixed-point unit [`SCALE`] stands for 1.0 and genes are meant to stay in
//! [-1, 1], that is in [-`SCALE`, `SCALE`].

use vstd::prelude::*;
use crate::probability::{Probability, SCALE};
use crate::random::{NormalSource, RandomSource};

verus! {

/// A gene clamped to the closed range [-`SCALE`, `SCALE`].
pub open spec fn spec_clamp(v: int) -> int {
    if v < -(SCALE as int) {
        -(SCALE as int)
    } else if v > SCALE as int {
        SCALE as int
    } else {
        v
    }
}

/// The offspring gene one coin flip picks: the first parent's on heads, the
/// second parent's on tails.
pub fn crossover_outcome(a: i64, b: i64, take_first: bool) -> (r: i64)
    ensures
        r == if take_first {
            a
        } else {
            b
        },
{
    if take_first {
        a
    } else {
        b
    }
}

/// Uniform crossover of two scalar genes: a fair coin flip picks one parent's
/// value, so the result is exactly `a` or exactly `b`, never anything else.
pub fn crossover<R: RandomSource>(a: i64, b: i64, rng: &mut R) -> (r: i64)
    ensures
        r == a || r == b,
{
    let take_first = rng.flip();
    crossover_outcome(a, b, take_first)
}

/// Applies a perturbation to a scalar gene and clamps the result to the unit
/// range, whatever the gene and the perturbation were.
pub fn mutate_applied(value: i64, delta: i64) -> (r: i64)
    ensures
        r == spec_clamp(value + delta),
        -(SCALE as int) <= r <= SCALE as int,
{
    let sum: i128 = value as i128 + delta as i128;
    if sum < -(SCALE as i128) {
        -(SCALE as i64)
    } else if sum > SCALE as i128 {
        SCALE as i64
    } else {
        sum as i64
    }
}

/// Gaussian mutation of a scalar gene: with probability `rate` the gene is
/// perturbed by one standard-normal sample and clamped to the unit range;
/// otherwise it comes back unchanged. A rate of zero never perturbs and a
/// rate of one always clamps the result into [-`SCALE`, `SCALE`]; a gene
/// already in that range stays in it either way.
pub fn mutate<R: RandomSource + NormalSource>(value: i64, rate: Probability, rng: &mut R) -> (r: i64)
    requires
        rate.wf(),
    ensures
        rate.spec_num() == 0 ==> r == value,
        r == value || -(SCALE as int) <= r <= SCALE as int,
        -(SCALE as int) <= value <= SCALE as int ==> -(SCALE as int) <= r <= SCALE as int,
        rate.spec_num() == SCALE ==> -(SCALE as int) <= r <= SCALE as int,
{
    let chance = rng.bernoulli(rate);
    if !chance {
        return value;
    }
    let delta = rng.normal_delta();
    mutate_applied(value, delta)
}

} // verus!
