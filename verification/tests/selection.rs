use gacore::{select_index, select_parent, probabilities, Probability, RandomSource, SCALE};

/// Hands out a scripted sequence of darts; flips and trials are fixed.
struct ScriptedSource {
    darts: Vec<u64>,
    at: usize,
}

impl RandomSource for ScriptedSource {
    fn unit(&mut self) -> u64 {
        let d = self.darts[self.at];
        self.at += 1;
        assert!(d < SCALE);
        d
    }

    fn flip(&mut self) -> bool {
        true
    }

    fn bernoulli(&mut self, rate: Probability) -> bool {
        rate.get() == SCALE
    }
}

fn quarters() -> Vec<Probability> {
    probabilities(&[1, 1, 1, 1])
}

#[test]
fn dart_lands_in_the_first_slot() {
    assert_eq!(select_index(&quarters(), 0), 0);
    assert_eq!(select_index(&quarters(), 249_999), 0);
}

#[test]
fn dart_crosses_into_later_slots() {
    assert_eq!(select_index(&quarters(), 250_000), 1);
    assert_eq!(select_index(&quarters(), 499_999), 1);
    assert_eq!(select_index(&quarters(), 500_000), 2);
    assert_eq!(select_index(&quarters(), 999_999), 3);
}

#[test]
fn short_totals_fall_back_to_the_last_index() {
    // These weights sum to 0.6: any dart beyond that takes the last index.
    let short = vec![
        Probability::new(300_000).unwrap(),
        Probability::new(300_000).unwrap(),
    ];
    assert_eq!(select_index(&short, 599_999), 1);
    assert_eq!(select_index(&short, 600_000), 1);
    assert_eq!(select_index(&short, 999_999), 1);
}

#[test]
fn single_entry_always_wins() {
    let full = vec![Probability::new(SCALE).unwrap()];
    assert_eq!(select_index(&full, 0), 0);
    assert_eq!(select_index(&full, 999_999), 0);
    // Even a weightless single entry is picked, through the fallback.
    let empty_weight = vec![Probability::new(0).unwrap()];
    assert_eq!(select_index(&empty_weight, 0), 0);
    assert_eq!(select_index(&empty_weight, 999_999), 0);
}

#[test]
fn select_parent_follows_the_drawn_dart() {
    let mut rng = ScriptedSource { darts: vec![0, 250_000, 750_000, 999_999], at: 0 };
    let dist = quarters();
    assert_eq!(select_parent(&dist, &mut rng), 0);
    assert_eq!(select_parent(&dist, &mut rng), 1);
    assert_eq!(select_parent(&dist, &mut rng), 3);
    assert_eq!(select_parent(&dist, &mut rng), 3);
}

#[test]
fn select_parent_on_a_single_entry_ignores_the_dart() {
    let full = vec![Probability::new(SCALE).unwrap()];
    for dart in [0, 1, 500_000, 999_999] {
        let mut rng = ScriptedSource { darts: vec![dart], at: 0 };
        assert_eq!(select_parent(&full, &mut rng), 0);
    }
}
