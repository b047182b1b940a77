//! Verified core of a short-time objective intelligibility (STOI) scorer.
//!
//! The numeric pipeline turns two equal-length sample sequences into a
//! similarity score: polyphase resampling to a 10 kHz analysis rate,
//! overlapping frames with an energy-based silence mask, a short-time
//! spectrum per kept frame, one-third-octave band energies, overlapping
//! segments, and a normalized-correlation score.  This crate verifies the
//! discrete skeleton of that pipeline: rate reduction, filter geometry, the
//! polyphase tap schedule, frame and segment layout, silence-mask
//! bookkeeping, the band-edge table, input validation, and the batch
//! fallback policy.  The floating-point signal arithmetic itself lives
//! outside the verified library and consumes the schedules and layouts
//! proved here.

use vstd::prelude::*;

pub mod bands;
pub mod batch;
pub mod constants;
pub mod error;
pub mod filter;
pub mod framing;
pub mod gcd;
pub mod pipeline;
pub mod rates;
pub mod schedule;
