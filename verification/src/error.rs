//! Error kinds reported by the scoring pipeline.

use vstd::prelude::*;

verus! {

/// Why a scoring call was rejected.  Every failure is detected at the
/// earliest stage that can see it and is reported to the caller; nothing is
/// retried.
#[derive(Clone, Copy, Debug, PartialEq, Eq, Structural)]
pub enum StoiError {
    /// The reference and degraded signals differ in length.
    ShapeMismatch,
    /// Fewer samples than one frame, or fewer kept frames than one segment.
    SignalTooShort,
    /// A zero sampling rate was handed to the resampler.
    InvalidSampleRate,
}

} // verus!
