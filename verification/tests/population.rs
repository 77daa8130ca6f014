use gacore::{Agent, Dna, Population, Probability, SCALE};

/// A one-gene genome for exercising the reproduction cycle.
#[derive(Clone, Copy, Debug, PartialEq, Eq)]
struct TestDna {
    gene: i64,
}

impl Dna for TestDna {
    fn mutate(&mut self, rate: Probability) {
        // A crude house rule: any positive rate shifts the gene by one.
        if rate.get() > 0 {
            self.gene += 1;
        }
    }
}

/// An agent whose genetic material is a single gene; crossover hands on the
/// first parent's gene unchanged.
#[derive(Clone, Copy, Debug, PartialEq, Eq)]
struct TestAgent {
    gene: i64,
}

impl Agent for TestAgent {
    type Dna = TestDna;

    // The two ghost members are never run; their bodies mirror the
    // executable methods below.
    fn spec_crossover(self, _other: Self) -> TestDna {
        TestDna { gene: self.gene }
    }

    fn spec_with_dna(self, dna: TestDna) -> Self {
        TestAgent { gene: dna.gene }
    }

    fn crossover(&self, _other: &Self) -> TestDna {
        TestDna { gene: self.gene }
    }

    fn override_dna(&mut self, dna: TestDna) {
        self.gene = dna.gene;
    }
}

fn four_agents() -> Population<TestAgent, TestDna> {
    Population::new(vec![
        TestAgent { gene: 10 },
        TestAgent { gene: 20 },
        TestAgent { gene: 30 },
        TestAgent { gene: 40 },
    ])
}

#[test]
fn a_new_population_starts_at_generation_zero() {
    let p = four_agents();
    assert_eq!(p.generations(), 0);
    assert_eq!(p.individuals().len(), 4);
    assert_eq!(p.individuals()[2], TestAgent { gene: 30 });
}

#[test]
fn individuals_mut_reaches_the_agents() {
    let mut p = four_agents();
    p.individuals_mut()[0].gene = 99;
    assert_eq!(p.individuals()[0].gene, 99);
    assert_eq!(p.generations(), 0);
}

#[test]
fn reproduce_keeps_the_population_size() {
    let mut p = four_agents();
    let rate = Probability::new(0).unwrap();
    p.reproduce(&[1, 1, 1, 1], rate);
    assert_eq!(p.individuals().len(), 4);
}

#[test]
fn reproduce_advances_one_generation_per_call() {
    let mut p = four_agents();
    let rate = Probability::new(0).unwrap();
    assert_eq!(p.generations(), 0);
    p.reproduce(&[1, 1, 1, 1], rate);
    assert_eq!(p.generations(), 1);
    p.reproduce(&[4, 3, 2, 1], rate);
    assert_eq!(p.generations(), 2);
    p.reproduce(&[1, 2, 3, 4], rate);
    assert_eq!(p.generations(), 3);
}

#[test]
fn unmutated_offspring_carry_a_parent_gene() {
    // With a zero rate every offspring genome must equal some parent's
    // unmutated genome exactly.
    let mut p = four_agents();
    let rate = Probability::new(0).unwrap();
    p.reproduce(&[1, 1, 1, 1], rate);
    assert_eq!(p.individuals().len(), 4);
    assert_eq!(p.generations(), 1);
    for agent in p.individuals() {
        assert!([10, 20, 30, 40].contains(&agent.gene));
    }
}

#[test]
fn skewed_scores_steer_selection() {
    // One agent holds all the fitness: every offspring inherits its gene.
    let mut p = four_agents();
    let rate = Probability::new(0).unwrap();
    p.reproduce(&[0, 0, 7, 0], rate);
    for agent in p.individuals() {
        assert_eq!(agent.gene, 30);
    }
}

#[test]
fn a_positive_rate_reaches_every_offspring_genome() {
    // The house genome shifts its gene by one whenever the rate is positive,
    // so mutation must show on every slot.
    let mut p = four_agents();
    let rate = Probability::new(SCALE).unwrap();
    p.reproduce(&[0, 0, 7, 0], rate);
    for agent in p.individuals() {
        assert_eq!(agent.gene, 31);
    }
}
