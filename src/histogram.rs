use vstd::prelude::*;
use vstd::arithmetic::div_mod::{lemma_div_by_multiple, lemma_div_is_ordered};
use crate::average::{prefix_mass, total_mass};
use crate::domain::LogLuminanceDomain;

verus! {

/// One pixel as the histogram pass sees it: its log luminance in the
/// domain's units (`None` for a zero or non-finite luminance) and its
/// quantized metering weight (mask sample times compensation).
#[derive(PartialEq, Eq, Structural, Clone, Copy, Debug)]
pub struct Sample {
    pub log_luminance: Option<i32>,
    pub weight: u32,
}

/// Bucket of a log luminance: clamped to the domain, then mapped linearly
/// onto `[0, 64)`, the top of the domain falling into the last bucket.
/// Zero or non-finite luminance goes to bucket 0.
pub open spec fn bucket_spec(d: LogLuminanceDomain, log_luminance: Option<i32>) -> int {
    match log_luminance {
        None => 0,
        Some(v) => {
            let c = if v < d.min_log_luminance {
                d.min_log_luminance as int
            } else if v > d.max_spec() {
                d.max_spec()
            } else {
                v as int
            };
            let b = (c - d.min_log_luminance) * 64 / (d.log_luminance_range as int);
            if b > 63 {
                63
            } else {
                b
            }
        },
    }
}

/// Weight that the samples put into bucket `b`.
pub open spec fn bucket_mass(d: LogLuminanceDomain, s: Seq<Sample>, b: int) -> int
    decreases s.len(),
{
    if s.len() == 0 {
        0
    } else {
        bucket_mass(d, s.drop_last(), b) + if bucket_spec(d, s.last().log_luminance) == b {
            s.last().weight as int
        } else {
            0
        }
    }
}

/// Sum of the samples' weights.
pub open spec fn total_weight(s: Seq<Sample>) -> int
    decreases s.len(),
{
    if s.len() == 0 {
        0
    } else {
        total_weight(s.drop_last()) + s.last().weight
    }
}

/// Weight that the samples put into buckets `0 .. n`.
pub open spec fn mass_below(d: LogLuminanceDomain, s: Seq<Sample>, n: int) -> int
    decreases n,
{
    if n <= 0 {
        0
    } else {
        mass_below(d, s, n - 1) + bucket_mass(d, s, n - 1)
    }
}

/// Bucket of a pixel's log luminance.
pub fn bucket_of(d: LogLuminanceDomain, log_luminance: Option<i32>) -> (r: usize)
    requires
        d.wf(),
    ensures
        r == bucket_spec(d, log_luminance),
        r < 64,
{
    match log_luminance {
        None => 0,
        Some(v) => {
            let max = d.max_log_luminance();
            let c: i32 = if v < d.min_log_luminance {
                d.min_log_luminance
            } else if v > max {
                max
            } else {
                v
            };
            let offset: i64 = (c as i64) - (d.min_log_luminance as i64);
            let range: i64 = d.log_luminance_range as i64;
            proof {
                lemma_div_is_ordered(0, offset * 64, range as int);
                lemma_div_is_ordered(offset * 64, range * 64, range as int);
                lemma_div_by_multiple(64, range as int);
                assert(range * 64 == 64 * range);
            }
            let b: i64 = offset * 64 / range;
            if b > 63 {
                63
            } else {
                b as usize
            }
        },
    }
}

proof fn lemma_bucket_in_range(d: LogLuminanceDomain, l: Option<i32>)
    requires
        d.wf(),
    ensures
        0 <= bucket_spec(d, l) < 64,
{
    if let Some(v) = l {
        let c = if v < d.min_log_luminance {
            d.min_log_luminance as int
        } else if v > d.max_spec() {
            d.max_spec()
        } else {
            v as int
        };
        lemma_div_is_ordered(0, (c - d.min_log_luminance) * 64, d.log_luminance_range as int);
    }
}

proof fn lemma_bucket_mass_prefix(d: LogLuminanceDomain, s: Seq<Sample>, b: int, i: int, j: int)
    requires
        0 <= i <= j <= s.len(),
    ensures
        bucket_mass(d, s.take(i), b) <= bucket_mass(d, s.take(j), b),
    decreases j - i,
{
    if i < j {
        assert(s.take(j).drop_last() =~= s.take(j - 1));
        lemma_bucket_mass_prefix(d, s, b, i, j - 1);
    }
}

/// Builds the histogram of a frame: bucket `b` holds the total weight of
/// the samples whose log luminance falls into it.
pub fn build_histogram(d: LogLuminanceDomain, samples: &Vec<Sample>) -> (r: Vec<u32>)
    requires
        d.wf(),
        forall|b: int| 0 <= b < 64 ==> bucket_mass(d, samples@, b) <= u32::MAX,
    ensures
        r@.len() == 64,
        forall|b: int| 0 <= b < 64 ==> r@[b] == bucket_mass(d, samples@, b),
{
    let mut h: Vec<u32> = Vec::new();
    let mut k: usize = 0;
    while k < 64
        invariant
            k <= 64,
            h@.len() == k,
            forall|b: int| 0 <= b < k ==> h@[b] == 0,
        decreases 64 - k,
    {
        h.push(0);
        k = k + 1;
    }
    let ghost s = samples@;
    assert(s.take(0) =~= Seq::<Sample>::empty());
    let mut i: usize = 0;
    while i < samples.len()
        invariant
            d.wf(),
            s == samples@,
            forall|b: int| 0 <= b < 64 ==> bucket_mass(d, s, b) <= u32::MAX,
            i <= s.len(),
            h@.len() == 64,
            forall|b: int| 0 <= b < 64 ==> h@[b] == bucket_mass(d, s.take(i as int), b),
        decreases s.len() - i,
    {
        let sample = samples[i];
        let b = bucket_of(d, sample.log_luminance);
        proof {
            assert(s.take(i + 1).drop_last() =~= s.take(i as int));
            lemma_bucket_mass_prefix(d, s, b as int, i + 1, s.len() as int);
            assert(s.take(s.len() as int) =~= s);
        }
        let v = h[b] + sample.weight;
        h.set(b, v);
        i = i + 1;
    }
    assert(s.take(s.len() as int) =~= s);
    h
}

proof fn lemma_mass_below_step(d: LogLuminanceDomain, s: Seq<Sample>, n: int)
    requires
        d.wf(),
        s.len() > 0,
        0 <= n,
    ensures
        mass_below(d, s, n) == mass_below(d, s.drop_last(), n) + if bucket_spec(
            d,
            s.last().log_luminance,
        ) < n {
            s.last().weight as int
        } else {
            0
        },
    decreases n,
{
    lemma_bucket_in_range(d, s.last().log_luminance);
    if n > 0 {
        lemma_mass_below_step(d, s, n - 1);
    }
}

proof fn lemma_mass_below_empty(d: LogLuminanceDomain, s: Seq<Sample>, n: int)
    requires
        s.len() == 0,
    ensures
        mass_below(d, s, n) == 0,
    decreases n,
{
    if n > 0 {
        lemma_mass_below_empty(d, s, n - 1);
    }
}

proof fn lemma_mass_below_all(d: LogLuminanceDomain, s: Seq<Sample>)
    requires
        d.wf(),
    ensures
        mass_below(d, s, 64) == total_weight(s),
    decreases s.len(),
{
    if s.len() == 0 {
        lemma_mass_below_empty(d, s, 64);
    } else {
        lemma_mass_below_all(d, s.drop_last());
        lemma_mass_below_step(d, s, 64);
        lemma_bucket_in_range(d, s.last().log_luminance);
    }
}

proof fn lemma_prefix_is_mass_below(d: LogLuminanceDomain, s: Seq<Sample>, h: Seq<u32>, n: int)
    requires
        h.len() == 64,
        forall|b: int| 0 <= b < 64 ==> h[b] == bucket_mass(d, s, b),
        0 <= n <= 64,
    ensures
        prefix_mass(h, n) == mass_below(d, s, n),
    decreases n,
{
    if n > 0 {
        lemma_prefix_is_mass_below(d, s, h, n - 1);
    }
}

/// The histogram's total mass is the sum of the samples' weights: every
/// sample lands in exactly one bucket.
pub proof fn lemma_histogram_total_is_total_weight(
    d: LogLuminanceDomain,
    s: Seq<Sample>,
    h: Seq<u32>,
)
    requires
        d.wf(),
        h.len() == 64,
        forall|b: int| 0 <= b < 64 ==> h[b] == bucket_mass(d, s, b),
    ensures
        total_mass(h) == total_weight(s),
{
    lemma_prefix_is_mass_below(d, s, h, 64);
    lemma_mass_below_all(d, s);
}

/// For an image whose pixels all have the same log luminance and weight,
/// that luminance's bucket holds pixel count times weight and every other
/// bucket is empty.
pub proof fn lemma_uniform_image(d: LogLuminanceDomain, s: Seq<Sample>, pixel: Sample, b: int)
    requires
        forall|i: int| 0 <= i < s.len() ==> s[i] == pixel,
    ensures
        bucket_mass(d, s, b) == if b == bucket_spec(d, pixel.log_luminance) {
            s.len() * pixel.weight
        } else {
            0
        },
    decreases s.len(),
{
    if s.len() > 0 {
        lemma_uniform_image(d, s.drop_last(), pixel, b);
        assert(s.len() * pixel.weight == (s.len() - 1) * pixel.weight + pixel.weight)
            by (nonlinear_arith);
    }
}

} // verus!
