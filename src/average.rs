use vstd::prelude::*;
use vstd::arithmetic::div_mod::{
    lemma_div_by_multiple, lemma_div_denominator, lemma_fundamental_div_mod, lemma_mod_bound,
};
use crate::domain::{LogLuminanceDomain, FRACTION_ONE};

verus! {

/// Mass of the first `n` buckets.
pub open spec fn prefix_mass(h: Seq<u32>, n: int) -> int
    decreases n,
{
    if n <= 0 {
        0
    } else {
        prefix_mass(h, n - 1) + h[n - 1]
    }
}

/// Mass of the whole histogram.
pub open spec fn total_mass(h: Seq<u32>) -> int {
    prefix_mass(h, h.len() as int)
}

/// Mass of the first `n` buckets in units of `1 / FRACTION_ONE`, the units
/// in which the clipping marks are exact.
pub open spec fn scaled_prefix(h: Seq<u32>, n: int) -> int {
    FRACTION_ONE as int * prefix_mass(h, n)
}

pub open spec fn clamp(x: int, lo: int, hi: int) -> int {
    if x < lo {
        lo
    } else if x > hi {
        hi
    } else {
        x
    }
}

/// Scaled cumulative mass below which the dark tail is discarded:
/// `low_percent / FRACTION_ONE` of the total.
pub open spec fn low_cut(total: int, low_percent: int) -> int {
    total * low_percent
}

/// Scaled cumulative mass above which the bright tail is discarded:
/// `high_percent / FRACTION_ONE` of the total.
pub open spec fn high_cut(total: int, high_percent: int) -> int {
    total * high_percent
}

/// Scaled mass of bucket `i` that lies between the marks `first` and `last`.
pub open spec fn retained(h: Seq<u32>, first: int, last: int, i: int) -> int {
    clamp(scaled_prefix(h, i + 1), first, last) - clamp(scaled_prefix(h, i), first, last)
}

/// Retained scaled mass of the first `n` buckets.
pub open spec fn retained_count(h: Seq<u32>, first: int, last: int, n: int) -> int
    decreases n,
{
    if n <= 0 {
        0
    } else {
        retained_count(h, first, last, n - 1) + retained(h, first, last, n - 1)
    }
}

/// Sum over the first `n` buckets of retained scaled mass times bucket index.
pub open spec fn retained_index_sum(h: Seq<u32>, first: int, last: int, n: int) -> int
    decreases n,
{
    if n <= 0 {
        0
    } else {
        retained_index_sum(h, first, last, n - 1) + retained(h, first, last, n - 1) * (n - 1)
    }
}

/// Mean bucket index of the retained mass, as the pair (index sum, mass) in
/// scaled units, or `None` when no mass is retained.
pub open spec fn clipped_mean_spec(h: Seq<u32>, low_percent: int, high_percent: int) -> Option<
    (int, int),
> {
    let first = low_cut(total_mass(h), low_percent);
    let last = high_cut(total_mass(h), high_percent);
    let count = retained_count(h, first, last, h.len() as int);
    if count == 0 {
        None
    } else {
        Some((retained_index_sum(h, first, last, h.len() as int), count))
    }
}

/// Weighted mean bucket index of a histogram, as an exact fraction
/// `index_sum / count`.
#[derive(PartialEq, Eq, Structural, Clone, Copy, Debug)]
pub struct ClippedMean {
    pub index_sum: u64,
    pub count: u64,
}

/// Log luminance that a mean bucket index stands for: bucket `b` starts at
/// `min + b * range / 64`.
pub open spec fn target_log_spec(d: LogLuminanceDomain, index_sum: int, count: int) -> int {
    d.min_log_luminance + (index_sum * d.log_luminance_range) / (64 * count)
}

pub proof fn lemma_prefix_mass_bounds(h: Seq<u32>, n: int)
    requires
        0 <= n <= h.len(),
    ensures
        0 <= prefix_mass(h, n) <= n * u32::MAX,
    decreases n,
{
    if n > 0 {
        lemma_prefix_mass_bounds(h, n - 1);
    }
}

pub proof fn lemma_prefix_mass_monotone(h: Seq<u32>, i: int, j: int)
    requires
        0 <= i <= j <= h.len(),
    ensures
        prefix_mass(h, i) <= prefix_mass(h, j),
    decreases j - i,
{
    if i < j {
        lemma_prefix_mass_monotone(h, i, j - 1);
    }
}

/// The retained mass telescopes to the clamped cumulative mass.
pub proof fn lemma_retained_count_telescopes(h: Seq<u32>, first: int, last: int, n: int)
    requires
        0 <= n <= h.len(),
    ensures
        retained_count(h, first, last, n) == clamp(scaled_prefix(h, n), first, last) - clamp(
            0,
            first,
            last,
        ),
    decreases n,
{
    if n > 0 {
        lemma_retained_count_telescopes(h, first, last, n - 1);
    }
}

/// Each bucket's retained mass is non-negative when `first <= last`.
pub proof fn lemma_retained_nonneg(h: Seq<u32>, first: int, last: int, i: int)
    requires
        0 <= i < h.len(),
        first <= last,
    ensures
        retained(h, first, last, i) >= 0,
{
    lemma_prefix_mass_monotone(h, i, i + 1);
}

pub proof fn lemma_retained_index_sum_bound(h: Seq<u32>, first: int, last: int, n: int)
    requires
        0 <= n <= h.len(),
        first <= last,
    ensures
        0 <= retained_index_sum(h, first, last, n) <= n * retained_count(h, first, last, n),
        0 <= retained_count(h, first, last, n),
    decreases n,
{
    if n > 0 {
        lemma_retained_index_sum_bound(h, first, last, n - 1);
        lemma_retained_nonneg(h, first, last, n - 1);
        let s = retained_index_sum(h, first, last, n - 1);
        let c = retained_count(h, first, last, n - 1);
        let r = retained(h, first, last, n - 1);
        assert(0 <= s + r * (n - 1) <= n * (c + r)) by (nonlinear_arith)
            requires
                0 <= s <= (n - 1) * c,
                0 <= c,
                0 <= r,
                n >= 1,
        ;
    }
}

/// A histogram with mass keeps some of it whenever `low_percent <
/// high_percent`: the retained mass is `(high_percent - low_percent) /
/// FRACTION_ONE` of the total.
pub proof fn lemma_mass_is_retained(h: Seq<u32>, low_percent: int, high_percent: int)
    requires
        0 <= low_percent <= high_percent <= FRACTION_ONE,
    ensures
        retained_count(
            h,
            low_cut(total_mass(h), low_percent),
            high_cut(total_mass(h), high_percent),
            h.len() as int,
        ) == total_mass(h) * (high_percent - low_percent),
        total_mass(h) > 0 && low_percent < high_percent ==> clipped_mean_spec(
            h,
            low_percent,
            high_percent,
        ) is Some,
{
    let t = total_mass(h);
    lemma_prefix_mass_bounds(h, h.len() as int);
    assert(0 <= t * low_percent <= t * high_percent <= t * FRACTION_ONE) by (nonlinear_arith)
        requires
            0 <= low_percent <= high_percent <= FRACTION_ONE,
            t >= 0,
    ;
    lemma_retained_count_telescopes(h, t * low_percent, t * high_percent, h.len() as int);
    assert(t * high_percent - t * low_percent == t * (high_percent - low_percent))
        by (nonlinear_arith);
    if t > 0 && low_percent < high_percent {
        assert(t * (high_percent - low_percent) > 0) by (nonlinear_arith)
            requires
                t > 0,
                low_percent < high_percent,
        ;
    }
}

/// Sum over the first `n` buckets of mass times bucket index, with no clipping.
pub open spec fn weighted_index_sum(h: Seq<u32>, n: int) -> int
    decreases n,
{
    if n <= 0 {
        0
    } else {
        weighted_index_sum(h, n - 1) + h[n - 1] * (n - 1)
    }
}

proof fn lemma_unclipped_prefix(h: Seq<u32>, total: int, n: int)
    requires
        0 <= n <= h.len(),
        total == total_mass(h),
    ensures
        retained_count(h, 0, FRACTION_ONE * total, n) == FRACTION_ONE * prefix_mass(h, n),
        retained_index_sum(h, 0, FRACTION_ONE * total, n) == FRACTION_ONE * weighted_index_sum(
            h,
            n,
        ),
    decreases n,
{
    if n > 0 {
        lemma_unclipped_prefix(h, total, n - 1);
        lemma_prefix_mass_bounds(h, n - 1);
        lemma_prefix_mass_bounds(h, n);
        lemma_prefix_mass_monotone(h, n - 1, h.len() as int);
        lemma_prefix_mass_monotone(h, n, h.len() as int);
        let w = weighted_index_sum(h, n - 1);
        let x = h[n - 1] as int;
        assert(FRACTION_ONE * w + (FRACTION_ONE * x) * (n - 1) == FRACTION_ONE * (w + x * (n
            - 1))) by (nonlinear_arith);
    }
}

/// Clipping nothing (`low_percent = 0`, `high_percent = 1`) keeps every
/// bucket whole: the result is the plain weighted mean bucket index (both
/// parts scaled by `FRACTION_ONE`), and `None` exactly when the histogram is
/// empty.  The target log luminance is then that of the plain mean.
pub proof fn lemma_clipping_nothing_is_plain_mean(d: LogLuminanceDomain, h: Seq<u32>)
    requires
        d.wf(),
    ensures
        clipped_mean_spec(h, 0, FRACTION_ONE as int) == if total_mass(h) == 0 {
            None::<(int, int)>
        } else {
            Some(
                (
                    FRACTION_ONE * weighted_index_sum(h, h.len() as int),
                    FRACTION_ONE * total_mass(h),
                ),
            )
        },
        total_mass(h) > 0 ==> average_target_spec(d, h, 0, FRACTION_ONE as int) == Some(
            target_log_spec(d, weighted_index_sum(h, h.len() as int), total_mass(h)),
        ),
{
    let total = total_mass(h);
    lemma_prefix_mass_bounds(h, h.len() as int);
    assert(low_cut(total, 0) == 0);
    assert(high_cut(total, FRACTION_ONE as int) == FRACTION_ONE * total);
    lemma_unclipped_prefix(h, total, h.len() as int);
    if total > 0 {
        let w = weighted_index_sum(h, h.len() as int);
        lemma_weighted_index_sum_nonneg(h, h.len() as int);
        let x = w * d.log_luminance_range;
        let y = 64 * total;
        let one = FRACTION_ONE as int;
        assert(x >= 0) by (nonlinear_arith)
            requires
                x == w * d.log_luminance_range,
                w >= 0,
                d.log_luminance_range > 0,
        ;
        assert((one * w) * d.log_luminance_range == one * x) by (nonlinear_arith)
            requires
                x == w * d.log_luminance_range,
        ;
        assert(64 * (one * total) == one * y) by (nonlinear_arith)
            requires
                y == 64 * total,
        ;
        lemma_div_by_multiple(x, one);
        assert(x * one == one * x) by (nonlinear_arith);
        lemma_div_denominator(one * x, one, y);
    }
}

proof fn lemma_weighted_index_sum_nonneg(h: Seq<u32>, n: int)
    requires
        0 <= n <= h.len(),
    ensures
        weighted_index_sum(h, n) >= 0,
    decreases n,
{
    if n > 0 {
        lemma_weighted_index_sum_nonneg(h, n - 1);
        assert(h[n - 1] * (n - 1) >= 0) by (nonlinear_arith)
            requires
                n >= 1,
                h[n - 1] >= 0,
        ;
    }
}

/// An all-zero histogram retains no mass, whatever the percentiles.
pub proof fn lemma_zero_mass_retains_nothing(h: Seq<u32>, low_percent: int, high_percent: int)
    requires
        forall|i: int| 0 <= i < h.len() ==> h[i] == 0,
        0 <= low_percent <= high_percent <= FRACTION_ONE,
    ensures
        clipped_mean_spec(h, low_percent, high_percent) is None,
{
    lemma_zero_prefix(h, h.len() as int);
    lemma_mass_is_retained(h, low_percent, high_percent);
}

proof fn lemma_zero_prefix(h: Seq<u32>, n: int)
    requires
        forall|i: int| 0 <= i < h.len() ==> h[i] == 0,
        0 <= n <= h.len(),
    ensures
        prefix_mass(h, n) == 0,
    decreases n,
{
    if n > 0 {
        lemma_zero_prefix(h, n - 1);
    }
}

/// Total mass of a 64-bucket histogram.
pub fn histogram_total(h: &Vec<u32>) -> (r: u64)
    requires
        h@.len() == 64,
    ensures
        r == total_mass(h@),
        r <= 64 * u32::MAX,
{
    let mut total: u64 = 0;
    let mut i: usize = 0;
    while i < 64
        invariant
            h@.len() == 64,
            i <= 64,
            total == prefix_mass(h@, i as int),
            total <= i * u32::MAX,
        decreases 64 - i,
    {
        total = total + h[i] as u64;
        i = i + 1;
    }
    total
}

/// Reduces a 64-bucket histogram to the weighted mean bucket index of the
/// mass that remains after discarding the darkest `low_percent` and the
/// brightest `1 - high_percent` of it (both fractions of `FRACTION_ONE`).
/// `None` exactly when nothing remains: for an all-zero histogram, or when
/// the two percentiles are equal.
pub fn clipped_mean(h: &Vec<u32>, low_percent: u32, high_percent: u32) -> (r: Option<ClippedMean>)
    requires
        h@.len() == 64,
        low_percent <= high_percent <= FRACTION_ONE,
    ensures
        match r {
            Some(m) => clipped_mean_spec(h@, low_percent as int, high_percent as int) == Some(
                (m.index_sum as int, m.count as int),
            ) && m.count > 0 && m.index_sum <= 63 * m.count,
            None => clipped_mean_spec(h@, low_percent as int, high_percent as int) is None,
        },
        total_mass(h@) > 0 && low_percent < high_percent ==> r is Some,
{
    let total = histogram_total(h);
    proof {
        lemma_mass_is_retained(h@, low_percent as int, high_percent as int);
        assert(total * low_percent <= total * high_percent <= total * FRACTION_ONE)
            by (nonlinear_arith)
            requires
                low_percent <= high_percent <= FRACTION_ONE,
                total >= 0,
        ;
        assert(total * FRACTION_ONE <= 64 * u32::MAX * FRACTION_ONE) by (nonlinear_arith)
            requires
                total <= 64 * u32::MAX,
        ;
    }
    let first: u64 = total * (low_percent as u64);
    let last: u64 = total * (high_percent as u64);
    let ghost hs = h@;
    let ghost scaled_total = total * FRACTION_ONE;
    let mut cum: u64 = 0;
    let mut lower: u64 = first;
    let mut count: u64 = 0;
    let mut index_sum: u64 = 0;
    let mut i: usize = 0;
    while i < 64
        invariant
            hs == h@,
            hs.len() == 64,
            i <= 64,
            total == total_mass(hs),
            total <= 64 * u32::MAX,
            scaled_total == total * FRACTION_ONE,
            first == low_cut(total as int, low_percent as int),
            last == high_cut(total as int, high_percent as int),
            first <= last <= scaled_total,
            scaled_total <= 64 * u32::MAX * FRACTION_ONE,
            cum == scaled_prefix(hs, i as int),
            lower == clamp(scaled_prefix(hs, i as int), first as int, last as int),
            count == retained_count(hs, first as int, last as int, i as int),
            index_sum == retained_index_sum(hs, first as int, last as int, i as int),
            count <= last,
            index_sum <= i * count,
        decreases 64 - i,
    {
        proof {
            lemma_prefix_mass_bounds(hs, i as int + 1);
            lemma_prefix_mass_monotone(hs, i as int + 1, 64);
            lemma_retained_nonneg(hs, first as int, last as int, i as int);
            lemma_retained_count_telescopes(hs, first as int, last as int, i as int + 1);
            lemma_retained_index_sum_bound(hs, first as int, last as int, i as int + 1);
        }
        cum = cum + (h[i] as u64) * (FRACTION_ONE as u64);
        let upper: u64 = if cum < first {
            first
        } else if cum > last {
            last
        } else {
            cum
        };
        let kept: u64 = upper - lower;
        proof {
            assert(kept * i <= 64 * last) by (nonlinear_arith)
                requires
                    kept <= last,
                    i < 64,
            ;
            assert(i * count <= 64 * last) by (nonlinear_arith)
                requires
                    count <= last,
                    i < 64,
            ;
        }
        count = count + kept;
        index_sum = index_sum + kept * (i as u64);
        lower = upper;
        i = i + 1;
    }
    proof {
        lemma_retained_index_sum_bound(hs, first as int, last as int, 63);
        lemma_retained_nonneg(hs, first as int, last as int, 63);
        assert(index_sum <= 63 * count) by (nonlinear_arith)
            requires
                index_sum == retained_index_sum(hs, first as int, last as int, 63) + retained(
                    hs,
                    first as int,
                    last as int,
                    63,
                ) * 63,
                retained_index_sum(hs, first as int, last as int, 63) <= 63 * retained_count(
                    hs,
                    first as int,
                    last as int,
                    63,
                ),
                count == retained_count(hs, first as int, last as int, 63) + retained(
                    hs,
                    first as int,
                    last as int,
                    63,
                ),
        ;
    }
    if count == 0 {
        None
    } else {
        Some(ClippedMean { index_sum, count })
    }
}

/// Log luminance of a mean bucket index, in the domain's units, rounded down.
pub fn target_log_luminance(d: LogLuminanceDomain, m: ClippedMean) -> (r: i32)
    requires
        d.wf(),
        m.count > 0,
        m.index_sum <= 63 * m.count,
    ensures
        r == target_log_spec(d, m.index_sum as int, m.count as int),
        d.min_log_luminance <= r < d.max_spec(),
{
    proof {
        assert((m.index_sum as int) * (d.log_luminance_range as int) <= u64::MAX * i32::MAX)
            by (nonlinear_arith)
            requires
                0 <= m.index_sum <= u64::MAX,
                0 < d.log_luminance_range <= i32::MAX,
        ;
        assert((m.count as int) * 64 <= u64::MAX * 64);
    }
    let num: u128 = (m.index_sum as u128) * (d.log_luminance_range as u128);
    let den: u128 = (m.count as u128) * 64;
    let q: u128 = num / den;
    proof {
        let s = m.index_sum as int;
        let c = m.count as int;
        let rg = d.log_luminance_range as int;
        lemma_fundamental_div_mod(num as int, den as int);
        lemma_mod_bound(num as int, den as int);
        assert(s * rg <= 63 * c * rg) by (nonlinear_arith)
            requires
                s <= 63 * c,
                rg > 0,
        ;
        assert(q < rg) by (nonlinear_arith)
            requires
                den * q <= num,
                num == s * rg,
                s * rg <= 63 * c * rg,
                den == c * 64,
                c > 0,
                rg > 0,
        ;
    }
    ((d.min_log_luminance as i64) + (q as i64)) as i32
}

/// Target log luminance of the average pass: the clipped mean bucket
/// mapped back into the domain, or `None` when no mass is retained.
pub open spec fn average_target_spec(
    d: LogLuminanceDomain,
    h: Seq<u32>,
    low_percent: int,
    high_percent: int,
) -> Option<int> {
    match clipped_mean_spec(h, low_percent, high_percent) {
        None => None,
        Some((index_sum, count)) => Some(target_log_spec(d, index_sum, count)),
    }
}

/// Reduces a frame's histogram to the target log luminance after
/// percentile clipping; `None` exactly when nothing is retained, in which
/// case the state is to be left as it is.
pub fn average_target(d: LogLuminanceDomain, h: &Vec<u32>, low_percent: u32, high_percent: u32) -> (r:
    Option<i32>)
    requires
        d.wf(),
        h@.len() == 64,
        low_percent <= high_percent <= FRACTION_ONE,
    ensures
        match r {
            Some(t) => average_target_spec(d, h@, low_percent as int, high_percent as int) == Some(
                t as int,
            ) && d.min_log_luminance <= t < d.max_spec(),
            None => average_target_spec(d, h@, low_percent as int, high_percent as int) is None,
        },
        total_mass(h@) > 0 && low_percent < high_percent ==> r is Some,
{
    match clipped_mean(h, low_percent, high_percent) {
        None => None,
        Some(m) => Some(target_log_luminance(d, m)),
    }
}

} // verus!
