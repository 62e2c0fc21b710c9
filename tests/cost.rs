use nelder_mead::cost::{cost_rank, cost_ranks, within_threshold};
use nelder_mead::error::SolveError;

#[test]
fn test_calculate_cost() {
    let f = |v: &[f64]| -> f64 {
        let mut s = 0.0;
        for x in v {
            s += x;
        }
        s
    };
    let simplex = vec![vec![1.0, 3.0], vec![4.0, 5.0]];
    let costs: Vec<u64> = simplex.iter().map(|v| f(v).to_bits()).collect();
    let ranked = cost_ranks(&costs).unwrap();
    assert_eq!(ranked, [4.0f64.to_bits() as i64, 9.0f64.to_bits() as i64]);
}

#[test]
fn rank_follows_the_order_of_reals() {
    let values: [f64; 10] = [-1.0e300, -2.0, -1.0, -1.0e-300, 0.0, 1.0e-300, 0.5, 1.0, 3.0, 1.0e300];
    for w in values.windows(2) {
        let a = cost_rank(w[0].to_bits()).unwrap();
        let b = cost_rank(w[1].to_bits()).unwrap();
        assert!(a < b, "{} !< {}", w[0], w[1]);
    }
}

#[test]
fn negative_rank_is_minus_the_magnitude() {
    assert_eq!(cost_rank((-2.0f64).to_bits()), Ok(-(2.0f64.to_bits() as i64)));
    assert_eq!(cost_rank((-0.0f64).to_bits()), Ok(0));
    assert_eq!(cost_rank(0.0f64.to_bits()), Ok(0));
}

#[test]
fn non_finite_costs_are_rejected() {
    assert_eq!(cost_rank(f64::NAN.to_bits()), Err(SolveError::EvaluationError));
    assert_eq!(cost_rank(f64::INFINITY.to_bits()), Err(SolveError::EvaluationError));
    assert_eq!(cost_rank(f64::NEG_INFINITY.to_bits()), Err(SolveError::EvaluationError));
    let costs = vec![1.0f64.to_bits(), f64::NAN.to_bits()];
    assert_eq!(cost_ranks(&costs), Err(SolveError::EvaluationError));
}

#[test]
fn threshold_is_on_the_absolute_value() {
    let limit = cost_rank(1.0e-9f64.to_bits()).unwrap();
    let r = |x: f64| cost_rank(x.to_bits()).unwrap();
    assert!(within_threshold(r(5.0e-10), limit));
    assert!(within_threshold(r(-5.0e-10), limit));
    assert!(within_threshold(r(0.0), limit));
    assert!(!within_threshold(r(1.0e-9), limit));
    assert!(!within_threshold(r(-2.0e-9), limit));
}
