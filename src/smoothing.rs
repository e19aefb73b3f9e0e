use vstd::prelude::*;
use vstd::arithmetic::div_mod::{lemma_div_is_ordered, lemma_fundamental_div_mod, lemma_mod_bound};
use crate::average::{average_target, average_target_spec, lemma_zero_mass_retains_nothing};
use crate::domain::{LogLuminanceDomain, FRACTION_ONE};

verus! {

/// Per-frame blend factors toward a brighter and toward a darker target, as
/// fractions of `FRACTION_ONE`.  Each is `(1 - exp(-delta_time * speed))`
/// raised to the shaping exponent of its direction.
#[derive(PartialEq, Eq, Structural, Clone, Copy, Debug)]
pub struct BlendFactors {
    pub up: u32,
    pub down: u32,
}

impl BlendFactors {
    pub open spec fn wf(&self) -> bool {
        self.up <= FRACTION_ONE && self.down <= FRACTION_ONE
    }
}

/// `a / b` rounded up.
pub open spec fn ceil_div(a: int, b: int) -> int {
    (a + b - 1) / b
}

/// One smoothing step from `previous` toward `target`: the gap shrinks by
/// the factor of the direction the target lies in, the step rounded away
/// from `previous`.
pub open spec fn smooth_spec(previous: int, target: int, f: BlendFactors) -> int {
    if target > previous {
        previous + ceil_div((target - previous) * f.up, FRACTION_ONE as int)
    } else {
        previous - ceil_div((previous - target) * f.down, FRACTION_ONE as int)
    }
}

/// The state after one average pass: unchanged when the histogram gave no
/// target, else one smoothing step toward it.
pub open spec fn next_state_spec(previous: int, target: Option<int>, f: BlendFactors) -> int {
    match target {
        None => previous,
        Some(t) => smooth_spec(previous, t, f),
    }
}

pub open spec fn option_int(o: Option<i32>) -> Option<int> {
    match o {
        None => None,
        Some(v) => Some(v as int),
    }
}

/// The state after `n` steps toward a constant target.
pub open spec fn smooth_iterate(previous: int, target: int, f: BlendFactors, n: nat) -> int
    decreases n,
{
    if n == 0 {
        previous
    } else {
        smooth_spec(smooth_iterate(previous, target, f, (n - 1) as nat), target, f)
    }
}

/// A step of `gap * factor / FRACTION_ONE`, rounded up, is at most `gap`,
/// and at least one whenever gap and factor are positive.
pub proof fn lemma_step_bounds(gap: int, factor: int)
    requires
        gap >= 0,
        0 <= factor <= FRACTION_ONE,
    ensures
        0 <= ceil_div(gap * factor, FRACTION_ONE as int) <= gap,
        gap > 0 && factor > 0 ==> ceil_div(gap * factor, FRACTION_ONE as int) >= 1,
{
    let one = FRACTION_ONE as int;
    let n = gap * factor + one - 1;
    let q = ceil_div(gap * factor, one);
    lemma_fundamental_div_mod(n, one);
    lemma_mod_bound(n, one);
    assert(gap * factor <= gap * one) by (nonlinear_arith)
        requires
            gap >= 0,
            factor <= one,
    ;
    assert(0 <= gap * factor) by (nonlinear_arith)
        requires
            gap >= 0,
            factor >= 0,
    ;
    assert(q <= gap) by (nonlinear_arith)
        requires
            one * q + n % one == n,
            0 <= n % one,
            n == gap * factor + one - 1,
            gap * factor <= gap * one,
            one > 0,
    ;
    assert(q >= 0) by (nonlinear_arith)
        requires
            one * q + n % one == n,
            n % one < one,
            n >= one - 1,
            one > 0,
    ;
    if gap > 0 && factor > 0 {
        assert(gap * factor >= 1) by (nonlinear_arith)
            requires
                gap > 0,
                factor > 0,
        ;
        assert(q >= 1) by (nonlinear_arith)
            requires
                one * q + n % one == n,
                n % one < one,
                n >= one,
                one > 0,
        ;
    }
}

/// One smoothing step toward `target`, using the upward factor when the
/// target is brighter than `previous` and the downward factor otherwise.
/// Values are log luminances; the result lies between `previous` and
/// `target`.
pub fn smooth(previous: i32, target: i32, factors: BlendFactors) -> (r: i32)
    requires
        factors.wf(),
    ensures
        r == smooth_spec(previous as int, target as int, factors),
        previous <= target ==> previous <= r <= target,
        target <= previous ==> target <= r <= previous,
{
    if target > previous {
        let gap: i64 = (target as i64) - (previous as i64);
        proof {
            lemma_step_bounds(gap as int, factors.up as int);
            assert(gap * factors.up <= gap * FRACTION_ONE) by (nonlinear_arith)
                requires
                    factors.up <= FRACTION_ONE,
                    gap >= 0,
            ;
            assert(gap * FRACTION_ONE <= u32::MAX * FRACTION_ONE) by (nonlinear_arith)
                requires
                    gap <= u32::MAX,
            ;
        }
        let step: i64 = (gap * (factors.up as i64) + (FRACTION_ONE as i64 - 1)) / (
        FRACTION_ONE as i64);
        ((previous as i64) + step) as i32
    } else {
        let gap: i64 = (previous as i64) - (target as i64);
        proof {
            lemma_step_bounds(gap as int, factors.down as int);
            assert(gap * factors.down <= gap * FRACTION_ONE) by (nonlinear_arith)
                requires
                    factors.down <= FRACTION_ONE,
                    gap >= 0,
            ;
            assert(gap * FRACTION_ONE <= u32::MAX * FRACTION_ONE) by (nonlinear_arith)
                requires
                    gap <= u32::MAX,
            ;
        }
        let step: i64 = (gap * (factors.down as i64) + (FRACTION_ONE as i64 - 1)) / (
        FRACTION_ONE as i64);
        ((previous as i64) - step) as i32
    }
}

/// The state-buffer update of the average pass: `None` (no mass retained)
/// keeps `previous`, else one smoothing step toward the target.
pub fn next_state(previous: i32, target: Option<i32>, factors: BlendFactors) -> (r: i32)
    requires
        factors.wf(),
    ensures
        r == next_state_spec(previous as int, option_int(target), factors),
{
    match target {
        None => previous,
        Some(t) => smooth(previous, t, factors),
    }
}

/// The whole average pass of one frame: clip the histogram, map its mean
/// back to a target log luminance and move the state, a log luminance in
/// the domain's units, one smoothing step toward it.  The state stays as it
/// is when no mass is retained.
pub fn average_pass(
    d: LogLuminanceDomain,
    h: &Vec<u32>,
    low_percent: u32,
    high_percent: u32,
    previous: i32,
    factors: BlendFactors,
) -> (r: i32)
    requires
        d.wf(),
        h@.len() == 64,
        low_percent <= high_percent <= FRACTION_ONE,
        factors.wf(),
    ensures
        r == next_state_spec(
            previous as int,
            average_target_spec(d, h@, low_percent as int, high_percent as int),
            factors,
        ),
{
    let target = average_target(d, h, low_percent, high_percent);
    next_state(previous, target, factors)
}

/// Toward a brighter target the step is taken with the upward factor; when
/// that factor is at least the downward one, the result is at least where
/// the downward factor would have led.
pub proof fn lemma_brighter_target_uses_upward_factor(
    previous: int,
    target: int,
    f: BlendFactors,
)
    requires
        f.wf(),
        previous < target,
    ensures
        smooth_spec(previous, target, f) == previous + ceil_div(
            (target - previous) * f.up,
            FRACTION_ONE as int,
        ),
        f.up >= f.down ==> smooth_spec(previous, target, f) >= previous + ceil_div(
            (target - previous) * f.down,
            FRACTION_ONE as int,
        ),
{
    let gap = target - previous;
    if f.up >= f.down {
        assert(gap * f.down <= gap * f.up) by (nonlinear_arith)
            requires
                gap > 0,
                f.down <= f.up,
        ;
        lemma_div_is_ordered(
            gap * f.down + FRACTION_ONE - 1,
            gap * f.up + FRACTION_ONE - 1,
            FRACTION_ONE as int,
        );
    }
}

/// Toward a brighter target with a positive upward factor, a step strictly
/// increases the value without passing the target; toward a darker target
/// with a positive downward factor, it strictly decreases it without passing
/// the target.  At the target a step stays there.
pub proof fn lemma_smoothing_step_approaches(previous: int, target: int, f: BlendFactors)
    requires
        f.wf(),
    ensures
        previous == target ==> smooth_spec(previous, target, f) == target,
        previous < target && f.up > 0 ==> previous < smooth_spec(previous, target, f) <= target,
        target < previous && f.down > 0 ==> target <= smooth_spec(previous, target, f)
            < previous,
{
    if previous < target {
        lemma_step_bounds(target - previous, f.up as int);
    }
    if target <= previous {
        lemma_step_bounds(previous - target, f.down as int);
    }
}

/// Repeated steps toward a constant brighter target form a non-decreasing
/// sequence that never passes the target, gains at least one unit per step
/// until it gets there, and so equals the target after `target - previous`
/// steps.  The converse holds toward a darker target with the downward factor.
pub proof fn lemma_smoothing_converges(previous: int, target: int, f: BlendFactors, n: nat)
    requires
        f.wf(),
    ensures
        previous <= target && f.up > 0 ==> {
            let v = smooth_iterate(previous, target, f, n);
            &&& previous <= v <= target
            &&& v >= target || v >= previous + n
            &&& v <= smooth_iterate(previous, target, f, n + 1)
        },
        target <= previous && f.down > 0 ==> {
            let v = smooth_iterate(previous, target, f, n);
            &&& target <= v <= previous
            &&& v <= target || v <= previous - n
            &&& v >= smooth_iterate(previous, target, f, n + 1)
        },
    decreases n,
{
    if n > 0 {
        lemma_smoothing_converges(previous, target, f, (n - 1) as nat);
        let u = smooth_iterate(previous, target, f, (n - 1) as nat);
        lemma_smoothing_step_approaches(u, target, f);
    }
    let v = smooth_iterate(previous, target, f, n);
    lemma_smoothing_step_approaches(v, target, f);
    assert(smooth_iterate(previous, target, f, n + 1) == smooth_spec(v, target, f));
}

/// An all-zero histogram yields no target, so the average pass leaves the
/// state value as it was.
pub proof fn lemma_zero_mass_keeps_state(
    d: LogLuminanceDomain,
    h: Seq<u32>,
    low_percent: int,
    high_percent: int,
    previous: int,
    f: BlendFactors,
)
    requires
        forall|i: int| 0 <= i < h.len() ==> h[i] == 0,
        0 <= low_percent <= high_percent <= FRACTION_ONE,
    ensures
        average_target_spec(d, h, low_percent, high_percent) is None,
        next_state_spec(previous, average_target_spec(d, h, low_percent, high_percent), f)
            == previous,
{
    lemma_zero_mass_retains_nothing(h, low_percent, high_percent);
}

} // verus!
