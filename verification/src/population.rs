//! The population and its reproduction cycle: normalize fitness, select
//! parent pairs by roulette, produce offspring genomes, replace the agents'
//! genetic material in place, and advance the generation counter.

use vstd::prelude::*;
use crate::probability::{probabilities, score_sum, weight_of, Probability, SCALE};
use crate::random::{RandomSource, ThreadRandom};
use crate::select::{select_parent, spec_select};

verus! {

/// The genetic payload of an agent, opaque to the population. Implementers
/// decide what perturbation a mutation rate causes; the one promise every
/// implementation must keep is that a rate of zero perturbs nothing.
pub trait Dna: Sized {
    /// Perturbs the genome in place, each mutable element with probability
    /// `rate`; a rate of zero leaves the genome exactly as it was.
    fn mutate(&mut self, rate: Probability)
        ensures
            rate.spec_num() == 0 ==> *final(self) == *old(self),
    ;
}

/// A candidate solution. Implementers decide how two parents combine and
/// how a fresh genome replaces the old one; the two spec functions name
/// those decisions so that the reproduction cycle can state what it bred.
pub trait Agent: Sized {
    type Dna: Dna;

    /// The offspring genome this parent breeds with another: the value
    /// `crossover` returns.
    spec fn spec_crossover(self, other: Self) -> Self::Dna;

    /// This agent with its genetic material replaced by `dna` and nothing
    /// else about it changed: the agent `override_dna` leaves behind.
    spec fn spec_with_dna(self, dna: Self::Dna) -> Self;

    /// Combines this parent's genetic material with another's into one
    /// offspring genome, touching neither parent.
    fn crossover(&self, other: &Self) -> (offspring: Self::Dna)
        ensures
            offspring == self.spec_crossover(*other),
    ;

    /// Replaces this agent's genetic material with a freshly produced
    /// genome, in place.
    fn override_dna(&mut self, dna: Self::Dna)
        ensures
            *final(self) == old(self).spec_with_dna(dna),
    ;
}

/// One slot's breeding evidence: parents `a` and `b` are the roulette
/// selections of darts `da` and `db` over the distribution, and at rate
/// zero the genome `g` is exactly their crossover (a positive rate may
/// perturb `g` arbitrarily).
pub open spec fn offspring_of<A: Agent<Dna = D>, D: Dna>(
    parents: Seq<A>,
    probs: Seq<Probability>,
    rate: Probability,
    g: D,
    a: int,
    b: int,
    da: u64,
    db: u64,
) -> bool {
    &&& 0 <= a < parents.len()
    &&& 0 <= b < parents.len()
    &&& da < SCALE && a == spec_select(probs, da as int)
    &&& db < SCALE && b == spec_select(probs, db as int)
    &&& (rate.spec_num() == 0 ==> g == parents[a].spec_crossover(parents[b]))
}

/// A genome bred for one slot: the crossover of two roulette-selected
/// parents of the pre-cycle population, mutated at the given rate.
pub open spec fn offspring_genome<A: Agent<Dna = D>, D: Dna>(
    parents: Seq<A>,
    probs: Seq<Probability>,
    rate: Probability,
    g: D,
) -> bool {
    exists|a: int, b: int, da: u64, db: u64| offspring_of(parents, probs, rate, g, a, b, da, db)
}

/// Slot `i` after replacement: the pre-cycle agent of that slot, with its
/// genetic material replaced by `g` and nothing else about it changed.
pub open spec fn replaced_with<A: Agent<Dna = D>, D: Dna>(
    parents: Seq<A>,
    slot: A,
    i: int,
    g: D,
) -> bool {
    slot == parents[i].spec_with_dna(g)
}

/// What one reproduction cycle leaves in slot `i`: the old agent of that
/// slot, carrying an offspring genome bred from the pre-cycle population.
pub open spec fn bred_into<A: Agent<Dna = D>, D: Dna>(
    parents: Seq<A>,
    probs: Seq<Probability>,
    rate: Probability,
    slot: A,
    i: int,
) -> bool {
    exists|g: D| replaced_with(parents, slot, i, g) && offspring_genome(parents, probs, rate, g)
}

/// A fixed-size generation of agents, together with the working buffers one
/// reproduction cycle fills: the selection distribution and the offspring
/// genomes.
#[derive(Debug, Clone)]
pub struct Population<A, D> {
    individuals: Vec<A>,
    generations: usize,
    probabilities: Vec<Probability>,
    dna: Vec<D>,
}

impl<A, D> Population<A, D> {
    /// The current generation of agents.
    pub closed spec fn spec_individuals(self) -> Seq<A> {
        self.individuals@
    }

    /// How many reproduction cycles have completed.
    pub closed spec fn spec_generations(self) -> usize {
        self.generations
    }

    /// The selection distribution the last cycle worked with.
    pub closed spec fn spec_probabilities(self) -> Seq<Probability> {
        self.probabilities@
    }

    /// The offspring buffer; it is emptied again by the end of each cycle.
    pub closed spec fn spec_dna(self) -> Seq<D> {
        self.dna@
    }

    /// Wraps an initial generation of agents, at generation count zero and
    /// with empty working buffers.
    pub fn new(individuals: Vec<A>) -> (p: Population<A, D>)
        ensures
            p.spec_individuals() == individuals@,
            p.spec_generations() == 0,
            p.spec_probabilities().len() == 0,
            p.spec_dna().len() == 0,
    {
        Population {
            individuals,
            generations: 0,
            probabilities: Vec::new(),
            dna: Vec::new(),
        }
    }

    /// The current agents.
    pub fn individuals(&self) -> (r: &Vec<A>)
        ensures
            r@ == self.spec_individuals(),
    {
        &self.individuals
    }

    /// Mutable access to the current agents; nothing else of the population
    /// changes through it.
    pub fn individuals_mut(&mut self) -> (r: &mut Vec<A>)
        ensures
            (*r)@ == old(self).spec_individuals(),
            final(self).spec_individuals() == (*final(r))@,
            final(self).spec_generations() == old(self).spec_generations(),
            final(self).spec_probabilities() == old(self).spec_probabilities(),
            final(self).spec_dna() == old(self).spec_dna(),
    {
        &mut self.individuals
    }

    /// How many reproduction cycles have completed.
    pub fn generations(&self) -> (g: usize)
        ensures
            g == self.spec_generations(),
    {
        self.generations
    }
}

impl<A, D> Population<A, D> where A: Agent<Dna = D>, D: Dna {
    /// One reproduction cycle. Normalizes `scores` into the selection
    /// distribution, draws two parents per population slot by roulette,
    /// produces each offspring genome by crossover and mutation from the
    /// pre-cycle agents alone, then replaces each slot's agent's genetic
    /// material with an offspring genome and advances the generation
    /// counter by exactly one.
    ///
    /// The breeding clause pins the rest: every agent stays in its slot
    /// with only its genome replaced, each replacement genome is bred from
    /// two roulette-selected parents of the pre-cycle population, and at
    /// rate zero it is exactly their unmutated crossover.
    ///
    /// Callers must hand over one score per individual, with a positive
    /// total; anything else is a contract violation.
    pub fn reproduce(&mut self, scores: &[u64], rate: Probability)
        requires
            rate.wf(),
            scores@.len() == old(self).spec_individuals().len(),
            score_sum(scores@) > 0,
            old(self).spec_generations() < usize::MAX,
        ensures
            final(self).spec_individuals().len() == old(self).spec_individuals().len(),
            final(self).spec_generations() == old(self).spec_generations() + 1,
            final(self).spec_probabilities().len() == scores@.len(),
            forall|i: int|
                0 <= i < scores@.len() ==> final(self).spec_probabilities()[i].spec_num()
                    == weight_of(scores@[i], score_sum(scores@)),
            final(self).spec_dna().len() == 0,
            forall|i: int|
                0 <= i < old(self).spec_individuals().len() ==> bred_into(
                    old(self).spec_individuals(),
                    final(self).spec_probabilities(),
                    rate,
                    #[trigger] final(self).spec_individuals()[i],
                    i,
                ),
    {
        let ghost parents = self.individuals@;
        let n = self.individuals.len();
        self.probabilities = probabilities(scores);
        let ghost probs = self.probabilities@;
        assert(n > 0) by {
            if scores@.len() == 0 {
                assert(score_sum(scores@) == 0);
            }
        }
        let mut rng = ThreadRandom::new();
        self.dna = Vec::new();
        let mut k: usize = 0;
        while k < n
            invariant
                k <= n,
                n > 0,
                rate.wf(),
                self.individuals@ == parents,
                parents.len() == n,
                self.probabilities@ == probs,
                probs.len() == n,
                self.dna@.len() == k,
                self.generations == old(self).spec_generations(),
                self.generations < usize::MAX,
                forall|j: int|
                    0 <= j < k ==> offspring_genome(parents, probs, rate, #[trigger] self.dna@[j]),
            decreases n - k,
        {
            let a = select_parent(self.probabilities.as_slice(), &mut rng);
            let b = select_parent(self.probabilities.as_slice(), &mut rng);
            let mut child = self.individuals[a].crossover(&self.individuals[b]);
            child.mutate(rate);
            self.dna.push(child);
            proof {
                let da = choose|d: u64| d < SCALE && a as int == spec_select(probs, d as int);
                let db = choose|d: u64| d < SCALE && b as int == spec_select(probs, d as int);
                assert(offspring_of(
                    parents,
                    probs,
                    rate,
                    self.dna@[k as int],
                    a as int,
                    b as int,
                    da,
                    db,
                ));
            }
            k = k + 1;
        }
        let ghost brood = self.dna@;
        let mut i: usize = n;
        proof {
            assert(self.dna@ =~= brood.take(n as int));
        }
        while i > 0
            invariant
                i <= n,
                rate.wf(),
                self.individuals@.len() == n,
                parents.len() == n,
                self.probabilities@ == probs,
                probs.len() == n,
                brood.len() == n,
                self.dna@ == brood.take(i as int),
                self.generations == old(self).spec_generations(),
                self.generations < usize::MAX,
                forall|j: int|
                    0 <= j < n ==> offspring_genome(parents, probs, rate, #[trigger] brood[j]),
                forall|j: int| 0 <= j < i ==> self.individuals@[j] == parents[j],
                forall|j: int|
                    i <= j < n ==> bred_into(
                        parents,
                        probs,
                        rate,
                        #[trigger] self.individuals@[j],
                        j,
                    ),
            decreases i,
        {
            i = i - 1;
            let child = self.dna.pop().unwrap();
            proof {
                assert(brood.take(i + 1).drop_last() =~= brood.take(i as int));
                assert(child == brood[i as int]);
            }
            self.individuals[i].override_dna(child);
            proof {
                assert(replaced_with(
                    parents,
                    self.individuals@[i as int],
                    i as int,
                    brood[i as int],
                ));
                assert(bred_into(parents, probs, rate, self.individuals@[i as int], i as int));
            }
        }
        self.generations = self.generations + 1;
    }
}

} // verus!
