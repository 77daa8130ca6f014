//! A minimal genetic-algorithm core: fitness-proportionate (roulette-wheel)
//! parent selection, crossover, and mutation over a fixed-size population.
//!
//! Callers supply their own agent representation and fitness evaluation
//! through the [`Agent`] and [`Dna`] capability traits; this crate owns the
//! reproduction cycle and the generic scalar-gene operators.
//!
//! Weights, rates, and scalar genes are held in fixed-point form: the unit
//! interval [0, 1] maps to the integers [0, [`SCALE`]], so every probability
//! and every gene value is a plain integer that contracts can speak of
//! exactly.

mod gene;
mod population;
mod probability;
mod random;
mod select;

pub use gene::{crossover, crossover_outcome, mutate, mutate_applied, spec_clamp};
pub use population::{
    bred_into, offspring_genome, offspring_of, replaced_with, Agent, Dna, Population,
};
pub use probability::{
    lemma_weights_sum_near_one, probabilities, score_sum, weight_of, weight_sum, Probability,
    SCALE,
};
pub use random::{NormalSource, RandomSource};
pub use select::{
    lemma_select_first_crossing, lemma_select_single, select_index, select_parent, spec_select,
};
