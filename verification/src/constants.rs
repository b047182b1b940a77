//! Fixed parameters of the analysis pipeline.

use vstd::prelude::*;

verus! {

/// Samples per analysis frame.
pub const FRAME_LENGTH: usize = 256;

/// Hop between consecutive frame starts (half a frame: 50% overlap).
pub const HOP_LENGTH: usize = 128;

/// Internal analysis sampling rate in Hz; every signal is resampled to it.
pub const ANALYSIS_RATE: usize = 10000;

/// Length of the zero-padded transform applied to each kept frame.
pub const FFT_LENGTH: usize = 512;

/// One-sided bin count of a real transform of `FFT_LENGTH` samples.
pub const FFT_BINS: usize = 257;

/// Number of one-third-octave bands accumulated from the spectrum.
pub const NUM_BANDS: usize = 15;

/// Frames per correlation segment.
pub const SEGMENT_LENGTH: usize = 30;

/// Energy span (dB) below the loudest frame within which a frame is kept.
pub const DYNAMIC_RANGE_DB: usize = 40;

/// Stopband rejection target (dB) of the resampling low-pass filter.
pub const REJECTION_DB: usize = 60;

/// Numerator of the half-length formula `(rejection - 8) / (28.714 * width)`
/// once the transition width `1 / (20 * max(up, down))` is substituted and
/// the quotient is scaled by 1000: `(60 - 8) * 20 * 1000`.
pub const FILTER_LENGTH_NUMER: usize = 1040000;

/// Denominator of the same scaled quotient: `28.714 * 1000`.
pub const FILTER_LENGTH_DENOM: usize = 28714;

} // verus!
