//! Automatic exposure control: the binding layout and pass selection of the
//! two luminance compute pipelines, and integer models of their kernels,
//! with proofs of the histogram's mass, of percentile clipping and of the
//! asymmetric temporal smoothing.
use vstd::prelude::*;

pub mod average;
pub mod domain;
pub mod histogram;
pub mod layout;
pub mod pass;
pub mod smoothing;

verus! {

/// Number of log-luminance buckets in a view's histogram.
pub const HISTOGRAM_BIN_COUNT: u64 = 64;

} // verus!
