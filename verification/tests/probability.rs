use gacore::{probabilities, Probability, SCALE};

#[test]
fn new_accepts_the_unit_interval() {
    assert_eq!(Probability::new(0).unwrap().get(), 0);
    assert_eq!(Probability::new(250_000).unwrap().get(), 250_000);
    assert_eq!(Probability::new(SCALE).unwrap().get(), SCALE);
}

#[test]
fn new_rejects_values_above_one() {
    assert!(Probability::new(SCALE + 1).is_none());
    assert!(Probability::new(u64::MAX).is_none());
}

#[test]
fn equal_scores_normalize_to_equal_weights() {
    let weights = probabilities(&[1, 1, 1, 1]);
    assert_eq!(weights.len(), 4);
    for w in &weights {
        assert_eq!(w.get(), 250_000);
    }
}

#[test]
fn weights_are_proportional_to_scores() {
    let weights = probabilities(&[2, 6]);
    assert_eq!(weights[0].get(), 250_000);
    assert_eq!(weights[1].get(), 750_000);
}

#[test]
fn a_single_score_takes_the_whole_wheel() {
    let weights = probabilities(&[5]);
    assert_eq!(weights.len(), 1);
    assert_eq!(weights[0].get(), SCALE);
}

#[test]
fn a_zero_score_gets_a_zero_weight() {
    let weights = probabilities(&[0, 3]);
    assert_eq!(weights[0].get(), 0);
    assert_eq!(weights[1].get(), SCALE);
}

#[test]
fn rounded_weights_sum_close_to_one() {
    let weights = probabilities(&[1, 1, 1]);
    let total: u64 = weights.iter().map(|w| w.get()).sum();
    assert_eq!(weights[0].get(), 333_333);
    assert_eq!(total, 999_999);
    assert!(total <= SCALE);
    assert!(total > SCALE - 3);
}

#[test]
fn huge_scores_do_not_overflow() {
    let weights = probabilities(&[u64::MAX, u64::MAX]);
    assert_eq!(weights[0].get(), 500_000);
    assert_eq!(weights[1].get(), 500_000);
}
