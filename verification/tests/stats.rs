use six_lock::mean_and_variance::{MeanAndVariance, MeanAndVarianceWeighted};

#[test]
fn fresh_record_is_zeroed() {
    let s = MeanAndVariance::new();
    assert_eq!(s.n, 0);
    assert_eq!(s.sum, 0);
    assert_eq!(s.sum_squares, 0);
}

#[test]
fn fresh_weighted_record_keeps_its_weight() {
    let s = MeanAndVarianceWeighted::new(8);
    assert!(!s.init);
    assert_eq!(s.w, 8);
    assert_eq!(s.mean, 0);
    assert_eq!(s.variance, 0);
}
