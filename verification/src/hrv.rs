//! Heart-rate variability in the time domain.
//!
//! Both metrics are square roots of fractions of whole numbers. This module
//! computes the fractions exactly; taking the root is left to the caller,
//! who decides on the number format.

use vstd::prelude::*;

verus! {

/// The largest RR interval, in milliseconds, that fits its 16 bits.
pub const RR_MAX: u128 = 65535;

/// The square of the largest RR interval.
pub const RR_MAX_SQUARED: u128 = 4294836225;

/// The mean of squared successive differences, as an exact fraction
/// `sum / count`. RMSSD is its square root.
#[derive(Clone, Copy, Debug, PartialEq, Eq, Structural)]
pub struct MeanSquare {
    /// Sum of the squared differences between neighbouring intervals.
    pub sum: u128,
    /// Number of differences, one less than the number of intervals.
    pub count: u64,
}

/// The population variance of the intervals, kept as its three moments:
/// `sq_sum / count - (sum / count)^2`. SDNN is its square root.
#[derive(Clone, Copy, Debug, PartialEq, Eq, Structural)]
pub struct Variance {
    /// Number of intervals.
    pub count: u64,
    /// Sum of the intervals.
    pub sum: u128,
    /// Sum of the squared intervals.
    pub sq_sum: u128,
}

/// The two time-domain metrics of one batch of RR intervals. Both are
/// absent when the batch holds fewer than two intervals.
#[derive(Clone, Copy, Debug, PartialEq, Eq, Structural)]
pub struct HrvSample {
    pub rmssd: Option<MeanSquare>,
    pub sdnn: Option<Variance>,
}

/// `x` squared.
pub open spec fn square(x: int) -> int {
    x * x
}

/// Sum of the squared differences between neighbours in `rr`.
pub open spec fn diff_sq_sum(rr: Seq<u16>) -> int
    decreases rr.len(),
{
    if rr.len() < 2 {
        0
    } else {
        diff_sq_sum(rr.drop_last()) + square(rr[rr.len() - 1] - rr[rr.len() - 2])
    }
}

/// Sum of the intervals in `rr`.
pub open spec fn sum_of(rr: Seq<u16>) -> int
    decreases rr.len(),
{
    if rr.len() == 0 {
        0
    } else {
        sum_of(rr.drop_last()) + rr.last()
    }
}

/// Sum of the squared intervals in `rr`.
pub open spec fn sq_sum_of(rr: Seq<u16>) -> int
    decreases rr.len(),
{
    if rr.len() == 0 {
        0
    } else {
        sq_sum_of(rr.drop_last()) + square(rr.last() as int)
    }
}

/// Sum of the squared distances of the intervals in `rr` from `center`.
pub open spec fn spread_around(rr: Seq<u16>, center: int) -> int
    decreases rr.len(),
{
    if rr.len() == 0 {
        0
    } else {
        spread_around(rr.drop_last(), center) + square(rr.last() - center)
    }
}

impl MeanSquare {
    /// Numerator of the fraction.
    pub open spec fn numerator(&self) -> int {
        self.sum as int
    }

    /// Denominator of the fraction.
    pub open spec fn denominator(&self) -> int {
        self.count as int
    }
}

impl Variance {
    /// Numerator of the variance written as one fraction:
    /// `count * sq_sum - sum^2`.
    pub open spec fn numerator(&self) -> int {
        self.count * self.sq_sum - self.sum * self.sum
    }

    /// Denominator of the variance written as one fraction: `count^2`.
    pub open spec fn denominator(&self) -> int {
        self.count * self.count
    }
}

/// The squared RMSSD of `rr`, absent for fewer than two intervals.
pub open spec fn rmssd_squared(rr: Seq<u16>) -> Option<MeanSquare> {
    if rr.len() < 2 {
        None
    } else {
        Some(MeanSquare { sum: diff_sq_sum(rr) as u128, count: (rr.len() - 1) as u64 })
    }
}

/// The squared SDNN of `rr`, absent for fewer than two intervals.
pub open spec fn sdnn_squared(rr: Seq<u16>) -> Option<Variance> {
    if rr.len() < 2 {
        None
    } else {
        Some(
            Variance {
                count: rr.len() as u64,
                sum: sum_of(rr) as u128,
                sq_sum: sq_sum_of(rr) as u128,
            },
        )
    }
}

/// Both metrics of `rr`.
pub open spec fn time_domain(rr: Seq<u16>) -> HrvSample {
    HrvSample { rmssd: rmssd_squared(rr), sdnn: sdnn_squared(rr) }
}

/// The square of a number between zero and the largest RR interval lies
/// between zero and the square of the largest.
pub proof fn lemma_square_bounded(x: int)
    requires
        -RR_MAX <= x <= RR_MAX,
    ensures
        0 <= square(x) <= RR_MAX_SQUARED,
        square(x) == square(-x),
{
    assert(0 <= x * x <= 4294836225 && x * x == (-x) * (-x)) by (nonlinear_arith)
        requires
            -65535 <= x <= 65535,
    ;
}

/// The three sums stay far below the limit of 128 bits.
pub proof fn lemma_sums_bounded(rr: Seq<u16>)
    ensures
        0 <= diff_sq_sum(rr) <= rr.len() * RR_MAX_SQUARED,
        0 <= sum_of(rr) <= rr.len() * RR_MAX,
        0 <= sq_sum_of(rr) <= rr.len() * RR_MAX_SQUARED,
    decreases rr.len(),
{
    if rr.len() > 0 {
        lemma_sums_bounded(rr.drop_last());
        lemma_square_bounded(rr.last() as int);
        if rr.len() >= 2 {
            lemma_square_bounded(rr[rr.len() - 1] - rr[rr.len() - 2]);
        }
    }
}

fn squared(x: u128) -> (sq: u128)
    requires
        x <= RR_MAX,
    ensures
        sq == square(x as int),
        sq <= RR_MAX_SQUARED,
{
    proof {
        lemma_square_bounded(x as int);
    }
    x * x
}

/// Computes RMSSD and SDNN of `rr_intervals`, each as the exact fraction
/// under its square root.
///
/// With fewer than two intervals both are absent.
pub fn calculate_time_domain_metrics(rr_intervals: &[u16]) -> (sample: HrvSample)
    ensures
        sample == time_domain(rr_intervals@),
{
    let n = rr_intervals.len();
    if n < 2 {
        return HrvSample { rmssd: None, sdnn: None };
    }
    let mut diffs: u128 = 0;
    let mut sum: u128 = 0;
    let mut sq_sum: u128 = 0;
    let mut i: usize = 0;
    while i < n
        invariant
            i <= n,
            n == rr_intervals@.len(),
            diffs == diff_sq_sum(rr_intervals@.take(i as int)),
            sum == sum_of(rr_intervals@.take(i as int)),
            sq_sum == sq_sum_of(rr_intervals@.take(i as int)),
        decreases n - i,
    {
        let x: u128 = rr_intervals[i] as u128;
        proof {
            let next = rr_intervals@.take(i + 1);
            assert(next.drop_last() =~= rr_intervals@.take(i as int));
            lemma_sums_bounded(next);
        }
        if i > 0 {
            let prev: u128 = rr_intervals[i - 1] as u128;
            let gap: u128 = if x >= prev {
                x - prev
            } else {
                prev - x
            };
            proof {
                lemma_square_bounded(x - prev);
            }
            diffs = diffs + squared(gap);
        }
        sum = sum + x;
        sq_sum = sq_sum + squared(x);
        i += 1;
    }
    proof {
        assert(rr_intervals@.take(n as int) =~= rr_intervals@);
    }
    HrvSample {
        rmssd: Some(MeanSquare { sum: diffs, count: (n - 1) as u64 }),
        sdnn: Some(Variance { count: n as u64, sum, sq_sum }),
    }
}

/// `count * sq_sum - sum^2` unfolds into the spread of the values around
/// any centre, which is a sum of squares.
proof fn lemma_spread_expands(rr: Seq<u16>, center: int)
    ensures
        spread_around(rr, center) == sq_sum_of(rr) - 2 * center * sum_of(rr) + rr.len() * center
            * center,
        spread_around(rr, center) >= 0,
    decreases rr.len(),
{
    if rr.len() > 0 {
        let init = rr.drop_last();
        let x = rr.last() as int;
        lemma_spread_expands(init, center);
        let s = sum_of(init);
        let q = sq_sum_of(init);
        let n = init.len() as int;
        assert((x - center) * (x - center) >= 0) by (nonlinear_arith);
        assert(q - 2 * center * s + n * center * center + (x - center) * (x - center) == (q + x
            * x) - 2 * center * (s + x) + (n + 1) * center * center) by (nonlinear_arith);
    }
}

/// The variance numerator is never negative.
pub proof fn lemma_variance_not_negative(rr: Seq<u16>)
    ensures
        rr.len() * sq_sum_of(rr) - sum_of(rr) * sum_of(rr) >= 0,
    decreases rr.len(),
{
    if rr.len() > 0 {
        let init = rr.drop_last();
        let x = rr.last() as int;
        lemma_variance_not_negative(init);
        lemma_spread_expands(init, x);
        let s = sum_of(init);
        let q = sq_sum_of(init);
        let n = init.len() as int;
        assert((n + 1) * (q + x * x) - (s + x) * (s + x) == (n * q - s * s) + (q - 2 * x * s + n
            * x * x)) by (nonlinear_arith);
    }
}

/// With two intervals or more both metrics are defined and are roots of
/// fractions that are not negative and have a positive denominator; with
/// fewer, both are absent.
pub proof fn lemma_metrics_defined(rr: Seq<u16>)
    requires
        rr.len() <= u64::MAX,
    ensures
        rr.len() < 2 ==> time_domain(rr).rmssd is None && time_domain(rr).sdnn is None,
        rr.len() >= 2 ==> {
            &&& time_domain(rr).rmssd matches Some(m)
            &&& time_domain(rr).sdnn matches Some(v)
            &&& m.numerator() == diff_sq_sum(rr)
            &&& m.numerator() >= 0
            &&& m.denominator() == rr.len() - 1
            &&& m.denominator() > 0
            &&& v.numerator() == rr.len() * sq_sum_of(rr) - sum_of(rr) * sum_of(rr)
            &&& v.numerator() >= 0
            &&& v.denominator() == rr.len() * rr.len()
            &&& v.denominator() > 0
        },
{
    if rr.len() >= 2 {
        lemma_sums_bounded(rr);
        lemma_variance_not_negative(rr);
        let n = rr.len() as int;
        assert(n * n > 0) by (nonlinear_arith)
            requires
                n >= 2,
        ;
    }
}

} // verus!
