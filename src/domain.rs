use vstd::prelude::*;

verus! {

/// Fixed-point scale of fractions: `FRACTION_ONE` stands for 1.
pub const FRACTION_ONE: u32 = 65536;

/// The log-luminance interval `[min_log_luminance, min_log_luminance +
/// log_luminance_range]` that the histogram buckets cover, in the caller's
/// fixed-point log units.
#[derive(PartialEq, Eq, Structural, Clone, Copy, Debug)]
pub struct LogLuminanceDomain {
    pub min_log_luminance: i32,
    pub log_luminance_range: i32,
}

impl LogLuminanceDomain {
    /// The range is positive and the interval's upper end is representable.
    pub open spec fn wf(&self) -> bool {
        self.log_luminance_range > 0 && self.min_log_luminance + self.log_luminance_range
            <= i32::MAX
    }

    /// Upper end of the interval.
    pub open spec fn max_spec(&self) -> int {
        self.min_log_luminance + self.log_luminance_range
    }

    /// A domain starting at `min_log_luminance` and spanning
    /// `log_luminance_range`; `None` when the range is not positive or the
    /// upper end does not fit.
    pub fn new(min_log_luminance: i32, log_luminance_range: i32) -> (r: Option<Self>)
        ensures
            r is Some <==> (log_luminance_range > 0 && min_log_luminance + log_luminance_range
                <= i32::MAX),
            r matches Some(d) ==> d.wf() && d.min_log_luminance == min_log_luminance
                && d.log_luminance_range == log_luminance_range,
    {
        if log_luminance_range > 0 && (min_log_luminance as i64) + (log_luminance_range as i64)
            <= i32::MAX as i64 {
            Some(LogLuminanceDomain { min_log_luminance, log_luminance_range })
        } else {
            None
        }
    }

    /// Upper end of the interval.
    pub fn max_log_luminance(&self) -> (r: i32)
        requires
            self.wf(),
        ensures
            r == self.max_spec(),
    {
        self.min_log_luminance + self.log_luminance_range
    }
}

} // verus!
