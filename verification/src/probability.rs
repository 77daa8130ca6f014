//! Normalized probabilities in fixed-point form, and the fitness normalizer
//! that turns raw scores into a selection distribution.

use vstd::prelude::*;

verus! {

/// Fixed-point unit: the integer that stands for the real value 1.0.
pub const SCALE: u64 = 1_000_000;

/// A probability in [0, 1], stored as a numerator over [`SCALE`].
///
/// Construction rejects any numerator above `SCALE`, so a `Probability`
/// always denotes a value in the unit interval.
#[derive(Clone, Copy, Debug, PartialEq, Eq, Structural)]
pub struct Probability {
    num: u64,
}

impl Probability {
    /// The numerator this probability stands for, as seen by contracts.
    pub closed spec fn spec_num(self) -> u64 {
        self.num
    }

    /// Every probability this module hands out is in range.
    pub open spec fn wf(self) -> bool {
        self.spec_num() <= SCALE
    }

    /// Builds a probability from a numerator over [`SCALE`]; fails if and
    /// only if the numerator exceeds `SCALE` (the value would be above 1).
    pub fn new(num: u64) -> (r: Option<Probability>)
        ensures
            num <= SCALE <==> r is Some,
            r is Some ==> r.unwrap().spec_num() == num && r.unwrap().wf(),
    {
        if num <= SCALE {
            Some(Probability { num })
        } else {
            None
        }
    }

    /// The numerator over [`SCALE`].
    pub fn get(&self) -> (r: u64)
        ensures
            r == self.spec_num(),
    {
        self.num
    }
}

/// The total of a sequence of raw fitness scores.
pub open spec fn score_sum(scores: Seq<u64>) -> int
    decreases scores.len(),
{
    if scores.len() == 0 {
        0
    } else {
        score_sum(scores.drop_last()) + scores.last()
    }
}

/// The normalized weight of one score against a positive total, in
/// fixed-point form: the integer part of `score / total` scaled by [`SCALE`].
pub open spec fn weight_of(score: u64, total: int) -> int
    recommends
        total > 0,
{
    score * SCALE / total
}

/// Dropping entries from the end never raises the total.
proof fn lemma_score_sum_prefix(scores: Seq<u64>, k: int)
    requires
        0 <= k <= scores.len(),
    ensures
        score_sum(scores.take(k)) <= score_sum(scores),
        score_sum(scores.take(k)) >= 0,
    decreases scores.len() - k,
{
    lemma_score_sum_nonneg(scores.take(k));
    if k == scores.len() {
        assert(scores.take(k) =~= scores);
    } else {
        lemma_score_sum_prefix(scores, k + 1);
        assert(scores.take(k + 1).drop_last() =~= scores.take(k));
        assert(score_sum(scores.take(k + 1)) == score_sum(scores.take(k)) + scores[k]);
    }
}

/// Scores are unsigned, so every total is non-negative.
proof fn lemma_score_sum_nonneg(scores: Seq<u64>)
    ensures
        score_sum(scores) >= 0,
    decreases scores.len(),
{
    if scores.len() > 0 {
        lemma_score_sum_nonneg(scores.drop_last());
    }
}

/// Each score is at most the total of all of them.
proof fn lemma_score_le_sum(scores: Seq<u64>, i: int)
    requires
        0 <= i < scores.len(),
    ensures
        scores[i] <= score_sum(scores),
    decreases scores.len(),
{
    lemma_score_sum_nonneg(scores.drop_last());
    if i == scores.len() - 1 {
    } else {
        lemma_score_le_sum(scores.drop_last(), i);
    }
}

/// Adds up raw scores without overflow.
fn sum_scores(scores: &[u64]) -> (total: u128)
    ensures
        total == score_sum(scores@),
{
    let n = scores.len();
    let mut total: u128 = 0;
    let mut k: usize = 0;
    while k < n
        invariant
            k <= n,
            n == scores@.len(),
            total == score_sum(scores@.take(k as int)),
            total <= k * 0xffff_ffff_ffff_ffffu128,
        decreases n - k,
    {
        proof {
            assert(scores@.take(k + 1).drop_last() =~= scores@.take(k as int));
        }
        total = total + scores[k] as u128;
        k = k + 1;
    }
    proof {
        assert(scores@.take(n as int) =~= scores@);
    }
    total
}

/// Normalizes raw fitness scores into a selection distribution: one weight
/// per score, each the fixed-point quotient of the score by the (positive)
/// total. Callers must hand over scores with a positive total; a zero total
/// has no normalization.
pub fn probabilities(scores: &[u64]) -> (r: Vec<Probability>)
    requires
        score_sum(scores@) > 0,
    ensures
        r@.len() == scores@.len(),
        forall|i: int|
            0 <= i < scores@.len() ==> r@[i].spec_num() == weight_of(
                scores@[i],
                score_sum(scores@),
            ),
        forall|i: int| 0 <= i < scores@.len() ==> r@[i].wf(),
{
    let total = sum_scores(scores);
    let n = scores.len();
    let mut r: Vec<Probability> = Vec::new();
    let mut k: usize = 0;
    while k < n
        invariant
            k <= n,
            n == scores@.len(),
            total == score_sum(scores@),
            total > 0,
            r@.len() == k,
            forall|i: int|
                0 <= i < k ==> r@[i].spec_num() == weight_of(scores@[i], score_sum(scores@)),
            forall|i: int| 0 <= i < k ==> r@[i].wf(),
        decreases n - k,
    {
        let score = scores[k];
        proof {
            lemma_score_le_sum(scores@, k as int);
            lemma_weight_in_unit(score, total as int);
        }
        let w = ((score as u128 * SCALE as u128) / total) as u64;
        let p = Probability::new(w).unwrap();
        r.push(p);
        k = k + 1;
    }
    r
}

/// The cumulative weight of the first `k` entries of a distribution: the
/// running sum roulette selection walks, and the total the distribution
/// sums to when `k` is its length.
pub open spec fn weight_sum(probs: Seq<Probability>, k: int) -> int
    decreases k,
{
    if k <= 0 {
        0
    } else {
        weight_sum(probs, k - 1) + probs[k - 1].spec_num()
    }
}

/// Normalized weights of positive-total scores sum to one, up to integer
/// rounding: the fixed-point total never exceeds [`SCALE`] and misses it by
/// less than one rounding unit per score.
pub proof fn lemma_weights_sum_near_one(scores: Seq<u64>, probs: Seq<Probability>)
    requires
        score_sum(scores) > 0,
        probs.len() == scores.len(),
        forall|i: int|
            0 <= i < scores.len() ==> probs[i].spec_num() == weight_of(
                scores[i],
                score_sum(scores),
            ),
    ensures
        SCALE - scores.len() < weight_sum(probs, probs.len() as int) <= SCALE,
{
    let total = score_sum(scores);
    let n = scores.len() as int;
    lemma_weight_sum_prefix_bounds(scores, probs, n);
    assert(scores.take(n) =~= scores);
    // The upper bound: the cumulative weight is at most (total * SCALE) / total.
    vstd::arithmetic::div_mod::lemma_div_multiples_vanish(SCALE as int, total);
    assert(total * SCALE == SCALE * total) by (nonlinear_arith);
    // The lower bound: multiply out and cancel the positive total.
    assert(n >= 1) by {
        if scores.len() == 0 {
            assert(score_sum(scores) == 0);
        }
    }
    let w = weight_sum(probs, n);
    assert(w * total >= total * SCALE - n * total + n);
    assert(w * total > (SCALE - n) * total) by (nonlinear_arith)
        requires
            w * total >= total * SCALE - n * total + n,
            n >= 1,
    ;
    assert(w > SCALE - n) by (nonlinear_arith)
        requires
            w * total > (SCALE - n) * total,
            total > 0,
    ;
}

/// Bounds for the cumulative weight of the first `k` normalized scores:
/// at most the fixed-point quotient of their raw total, and, scaled back up,
/// short of it by less than one rounding unit per entry.
proof fn lemma_weight_sum_prefix_bounds(scores: Seq<u64>, probs: Seq<Probability>, k: int)
    requires
        0 <= k <= scores.len(),
        score_sum(scores) > 0,
        probs.len() == scores.len(),
        forall|i: int|
            0 <= i < scores.len() ==> probs[i].spec_num() == weight_of(
                scores[i],
                score_sum(scores),
            ),
    ensures
        weight_sum(probs, k) <= score_sum(scores.take(k)) * SCALE / score_sum(scores),
        weight_sum(probs, k) * score_sum(scores) >= score_sum(scores.take(k)) * SCALE - k
            * score_sum(scores) + k,
    decreases k,
{
    let total = score_sum(scores);
    if k == 0 {
        assert(score_sum(scores.take(0)) == 0);
        assert(0 * SCALE / total == 0) by (nonlinear_arith)
            requires
                total > 0,
        ;
    } else {
        lemma_weight_sum_prefix_bounds(scores, probs, k - 1);
        let prev = score_sum(scores.take(k - 1));
        let here = scores[k - 1] as int;
        assert(scores.take(k).drop_last() =~= scores.take(k - 1));
        assert(score_sum(scores.take(k)) == prev + here);
        lemma_score_sum_prefix(scores, k - 1);
        let w_prev = weight_sum(probs, k - 1);
        let w_here = here * SCALE / total;
        let w_k = weight_sum(probs, k);
        assert(probs[k - 1].spec_num() == weight_of(scores[k - 1], total));
        assert(w_k == w_prev + w_here);
        // Upper bound: floors add up to at most the floor of the sum.
        assert(prev * SCALE >= 0) by (nonlinear_arith)
            requires
                prev >= 0,
        ;
        lemma_div_add_le(prev * SCALE, here * SCALE, total);
        assert(prev * SCALE + here * SCALE == (prev + here) * SCALE) by (nonlinear_arith);
        // Lower bound: one floor loses less than one whole denominator.
        vstd::arithmetic::div_mod::lemma_fundamental_div_mod(here * SCALE, total);
        vstd::arithmetic::div_mod::lemma_mod_bound(here * SCALE, total);
        assert(total * w_here == here * SCALE - (here * SCALE) % total);
        assert(w_here * total == total * w_here) by (nonlinear_arith);
        assert(w_here * total >= here * SCALE - total + 1);
        assert(w_k * total == w_prev * total + w_here * total) by (nonlinear_arith)
            requires
                w_k == w_prev + w_here,
        ;
        assert((k - 1) * total == k * total - total) by (nonlinear_arith);
        assert(w_prev * total >= prev * SCALE - (k - 1) * total + (k - 1));
        assert(w_k * total >= (prev + here) * SCALE - k * total + k);
    }
}

/// Floor division distributes over addition only up: the sum of two floored
/// quotients is at most the floored quotient of the sum.
proof fn lemma_div_add_le(a: int, b: int, d: int)
    requires
        a >= 0,
        b >= 0,
        d > 0,
    ensures
        a / d + b / d <= (a + b) / d,
{
    vstd::arithmetic::div_mod::lemma_fundamental_div_mod(a, d);
    vstd::arithmetic::div_mod::lemma_mod_bound(a, d);
    vstd::arithmetic::div_mod::lemma_hoist_over_denominator(a % d + b, a / d, d as nat);
    assert(a % d + b + (a / d) * d == a + b) by (nonlinear_arith)
        requires
            a == d * (a / d) + a % d,
    ;
    vstd::arithmetic::div_mod::lemma_div_is_ordered(b, a % d + b, d);
    vstd::arithmetic::div_mod::lemma_div_pos_is_pos(a % d + b, d);
}

/// A score no larger than a positive total normalizes to a weight inside
/// the unit interval.
proof fn lemma_weight_in_unit(score: u64, total: int)
    requires
        total > 0,
        score <= total,
    ensures
        0 <= weight_of(score, total) <= SCALE,
{
    assert(score * SCALE <= total * SCALE) by (nonlinear_arith)
        requires
            score <= total,
    ;
    vstd::arithmetic::div_mod::lemma_div_is_ordered(
        score * SCALE,
        total * SCALE,
        total,
    );
    vstd::arithmetic::div_mod::lemma_div_multiples_vanish(SCALE as int, total);
    assert(total * SCALE == SCALE * total) by (nonlinear_arith);
    vstd::arithmetic::div_mod::lemma_div_pos_is_pos(score * SCALE, total);
}

} // verus!
