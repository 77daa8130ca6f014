//! Sources of randomness for selection, crossover, and mutation.
//!
//! The algorithms in this crate never read entropy themselves: they ask a
//! [`RandomSource`] (and, for Gaussian perturbation, a [`NormalSource`]) for
//! plain values and are verified for every value such a source can hand back.
//! [`ThreadRandom`] backs the sources with the `rand` crate's thread-local
//! generator.

use vstd::prelude::*;
use rand::Rng;
use crate::probability::{Probability, SCALE};

verus! {

/// A supplier of uniform random draws.
///
/// Implementations decide the actual distribution; the contracts state only
/// what holds of every draw, so everything proved against this trait holds
/// whatever comes back.
pub trait RandomSource {
    /// Draws a dart on the unit interval: a fixed-point value in [0, `SCALE`).
    fn unit(&mut self) -> (d: u64)
        ensures
            d < SCALE,
    ;

    /// Flips a fair coin.
    fn flip(&mut self) -> bool;

    /// Runs one Bernoulli trial that succeeds with probability `rate`.
    /// A rate of zero never succeeds and a rate of one always does.
    fn bernoulli(&mut self, rate: Probability) -> (b: bool)
        requires
            rate.wf(),
        ensures
            rate.spec_num() == 0 ==> !b,
            rate.spec_num() == SCALE ==> b,
    ;
}

/// A supplier of standard-normal perturbations, in fixed-point form
/// (`SCALE` stands for one standard deviation). Nothing is promised of a
/// sample: a normal draw is unbounded.
pub trait NormalSource {
    /// Draws one perturbation.
    fn normal_delta(&mut self) -> i64;
}

/// Declares `rand::rngs::ThreadRng`, the `rand` crate's handle to the
/// thread-local generator, so that a field can carry one; the value is
/// opaque here.
#[verifier::external_type_specification]
#[verifier::external_body]
pub struct ExThreadRng(rand::rngs::ThreadRng);

/// A [`RandomSource`] backed by the `rand` crate's thread-local generator,
/// the source `Population::reproduce` draws its parents with.
pub(crate) struct ThreadRandom {
    inner: rand::rngs::ThreadRng,
}

impl ThreadRandom {
    /// Relies on `rand::thread_rng`: a handle to the thread-local generator.
    #[verifier::external_body]
    pub(crate) fn new() -> ThreadRandom {
        ThreadRandom { inner: rand::thread_rng() }
    }

    /// Relies on `rand::Rng::gen_range` over `0..SCALE`: the sample lies in
    /// the given half-open range, which is not empty.
    #[verifier::external_body]
    fn draw_dart(&mut self) -> (d: u64)
        ensures
            d < SCALE,
    {
        self.inner.gen_range(0..SCALE)
    }
}

impl RandomSource for ThreadRandom {
    fn unit(&mut self) -> (d: u64) {
        self.draw_dart()
    }

    fn flip(&mut self) -> bool {
        // A uniform dart lands below the midpoint exactly half the time.
        self.draw_dart() < SCALE / 2
    }

    fn bernoulli(&mut self, rate: Probability) -> (b: bool) {
        // A uniform dart on [0, SCALE) lands below `rate` with probability
        // `rate` itself; the edges follow from the dart's range.
        self.draw_dart() < rate.get()
    }
}

} // verus!
