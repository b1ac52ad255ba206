//! Records for incremental mean and variance statistics.
//!
//! These are the bare sample records: the running sums a plain accumulator
//! keeps, and the weight and running estimates an exponentially-weighted one
//! keeps. The arithmetic that folds samples into them and reads estimates
//! back out is left to the statistics kernels that own it; this crate only
//! defines the records and their zeroed starting points.

use vstd::prelude::*;

verus! {

/// Running sums for incremental mean and variance: how many samples were
/// recorded, their sum, and the sum of their squares.
#[derive(Clone, Copy)]
pub struct MeanAndVariance {
    /// Number of samples recorded.
    pub n: u64,
    /// Sum of the samples.
    pub sum: i64,
    /// Sum of the squares of the samples.
    pub sum_squares: u128,
}

impl MeanAndVariance {
    /// A fresh record: no samples, all sums zero.
    pub fn new() -> (s: Self)
        ensures
            s.n == 0,
            s.sum == 0,
            s.sum_squares == 0,
    {
        MeanAndVariance { n: 0, sum: 0, sum_squares: 0 }
    }
}

/// State of an exponentially-weighted mean and variance estimator: its
/// weight parameter and the running estimates, uninitialized until the
/// first sample arrives.
#[derive(Clone, Copy)]
pub struct MeanAndVarianceWeighted {
    /// Whether a first sample has seeded the estimates.
    pub init: bool,
    /// Weight parameter: samples are discounted by two to this power.
    pub w: u8,
    /// Running weighted mean.
    pub mean: i64,
    /// Running weighted variance.
    pub variance: u64,
}

impl MeanAndVarianceWeighted {
    /// A fresh estimator with weight parameter `w`: unseeded, estimates
    /// zero.
    pub fn new(w: u8) -> (s: Self)
        ensures
            s.init == false,
            s.w == w,
            s.mean == 0,
            s.variance == 0,
    {
        MeanAndVarianceWeighted { init: false, w, mean: 0, variance: 0 }
    }
}

} // verus!
