//! Roulette-wheel parent selection: sampling an index from a weight
//! distribution proportionally to its weight.

use vstd::prelude::*;
use crate::probability::{weight_sum, Probability, SCALE};
use crate::random::RandomSource;

verus! {

/// The index roulette selection picks for a given dart: the first index
/// whose cumulative weight exceeds the dart, or the last index when even the
/// full total stays at or below it (the rounding fallback).
pub open spec fn spec_select(probs: Seq<Probability>, dart: int) -> int {
    spec_select_from(probs, dart, 0)
}

/// The selection walk from position `k` on.
pub open spec fn spec_select_from(probs: Seq<Probability>, dart: int, k: int) -> int
    recommends
        0 <= k < probs.len(),
    decreases probs.len() - k,
{
    if k >= probs.len() - 1 {
        probs.len() - 1
    } else if dart < weight_sum(probs, k + 1) {
        k
    } else {
        spec_select_from(probs, dart, k + 1)
    }
}

/// The selection walk started at `k` lands on the first crossing at or after
/// `k`, or on the last index when no cumulative weight from `k` on crosses
/// the dart.
proof fn lemma_select_from_characterization(probs: Seq<Probability>, dart: int, k: int)
    requires
        0 <= k < probs.len(),
    ensures
        k <= spec_select_from(probs, dart, k) < probs.len(),
        forall|j: int| k < j <= spec_select_from(probs, dart, k) ==> weight_sum(probs, j) <= dart,
        dart < weight_sum(probs, spec_select_from(probs, dart, k) + 1) || spec_select_from(
            probs,
            dart,
            k,
        ) == probs.len() - 1,
    decreases probs.len() - k,
{
    if k >= probs.len() - 1 {
    } else if dart < weight_sum(probs, k + 1) {
    } else {
        lemma_select_from_characterization(probs, dart, k + 1);
    }
}

/// Roulette selection returns the first index whose cumulative weight
/// exceeds the dart; when rounding leaves even the full total at or below
/// the dart, it falls back to the last index, so a valid index comes back
/// for every non-empty distribution.
pub proof fn lemma_select_first_crossing(probs: Seq<Probability>, dart: int)
    requires
        probs.len() > 0,
    ensures
        0 <= spec_select(probs, dart) < probs.len(),
        forall|j: int| 0 < j <= spec_select(probs, dart) ==> weight_sum(probs, j) <= dart,
        dart < weight_sum(probs, spec_select(probs, dart) + 1) || spec_select(probs, dart)
            == probs.len() - 1,
{
    lemma_select_from_characterization(probs, dart, 0);
}

/// On a single-entry distribution selection lands on index 0, whatever the
/// dart and whatever the entry's weight.
pub proof fn lemma_select_single(probs: Seq<Probability>, dart: int)
    requires
        probs.len() == 1,
    ensures
        spec_select(probs, dart) == 0,
{
}

/// Walks a non-empty distribution and returns the index of the first entry
/// whose cumulative weight exceeds the dart, falling back to the last index
/// when the accumulated total never does.
pub fn select_index(probabilities: &[Probability], dart: u64) -> (i: usize)
    requires
        probabilities@.len() > 0,
    ensures
        i < probabilities@.len(),
        i as int == spec_select(probabilities@, dart as int),
        forall|j: int| 0 < j <= i ==> weight_sum(probabilities@, j) <= dart,
        dart < weight_sum(probabilities@, i + 1) || i as int == probabilities@.len() - 1,
{
    let n = probabilities.len();
    let mut cum: u128 = 0;
    let mut k: usize = 0;
    while k < n
        invariant
            k <= n,
            n == probabilities@.len(),
            n > 0,
            cum == weight_sum(probabilities@, k as int),
            cum <= k * 0xffff_ffff_ffff_ffffu128,
            spec_select(probabilities@, dart as int) == if k < n {
                spec_select_from(probabilities@, dart as int, k as int)
            } else {
                n - 1
            },
        decreases n - k,
    {
        cum = cum + probabilities[k].get() as u128;
        assert(cum == weight_sum(probabilities@, k + 1));
        if (dart as u128) < cum {
            proof {
                lemma_select_first_crossing(probabilities@, dart as int);
            }
            return k;
        }
        k = k + 1;
    }
    proof {
        lemma_select_first_crossing(probabilities@, dart as int);
    }
    n - 1
}

/// Samples one parent index from a non-empty distribution: the index is the
/// roulette selection of some dart on the unit interval.
pub fn select_parent<R: RandomSource>(probabilities: &[Probability], rng: &mut R) -> (i: usize)
    requires
        probabilities@.len() > 0,
    ensures
        i < probabilities@.len(),
        exists|d: u64| d < SCALE && i as int == spec_select(probabilities@, d as int),
{
    let dart = rng.unit();
    let i = select_index(probabilities, dart);
    assert(dart < SCALE && i as int == spec_select(probabilities@, dart as int));
    i
}

} // verus!

