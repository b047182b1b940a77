//! Input validation and the integer plan of one scoring call.
//!
//! Failures are detected at the earliest stage that can see them: a length
//! mismatch at the entry point, a degenerate rate at the resampler, a
//! too-short signal once the resampled length is known.  The later
//! too-few-kept-frames failure depends on the frame energies and is checked
//! against `check_segments` once the silence mask exists.

use crate::constants::{ANALYSIS_RATE, FRAME_LENGTH};
use crate::error::StoiError;
use crate::framing::{frame_count, frame_count_spec};
use crate::gcd::gcd_spec;
use crate::rates::{output_len, plan_matches, resample_plan, ResamplePlan};
use vstd::prelude::*;

verus! {

/// Length of a signal of `len` samples once resampled from `from` Hz to
/// `to` Hz by the reduced ratio.
pub open spec fn resampled_len_spec(len: int, from: int, to: int) -> int
    recommends
        from > 0,
        to > 0,
{
    let g = gcd_spec(from as nat, to as nat);
    (len * (to / g as int)) / (from / g as int)
}

/// The integer layout of one scoring call, fixed before any sample is
/// touched.
#[derive(Clone, Copy, Debug, PartialEq, Eq, Structural)]
pub struct StoiPlan {
    /// How both signals reach the analysis rate.
    pub resample: ResamplePlan,
    /// Common signal length after resampling.
    pub resampled_len: usize,
    /// Number of frames laid over each resampled signal.
    pub frame_count: usize,
}

/// Validate one pair of signals and lay out the work: reject a length
/// mismatch, then a degenerate rate, then a signal too short to frame.
pub fn stoi_plan(x_len: usize, y_len: usize, fs: usize) -> (r: Result<StoiPlan, StoiError>)
    requires
        x_len <= usize::MAX / ANALYSIS_RATE,
    ensures
        r is Ok <==> (x_len == y_len && fs > 0 && resampled_len_spec(
            x_len as int,
            fs as int,
            ANALYSIS_RATE as int,
        ) > FRAME_LENGTH),
        match r {
            Ok(plan) => {
                &&& plan_matches(plan.resample, fs as nat, ANALYSIS_RATE as nat)
                &&& plan.resampled_len == resampled_len_spec(
                    x_len as int,
                    fs as int,
                    ANALYSIS_RATE as int,
                )
                &&& fs == ANALYSIS_RATE ==> plan.resampled_len == x_len
                &&& plan.resampled_len > FRAME_LENGTH
                &&& plan.frame_count == frame_count_spec(plan.resampled_len as int)
                &&& plan.frame_count >= 1
            },
            Err(e) => {
                &&& (e == StoiError::ShapeMismatch <==> x_len != y_len)
                &&& (e == StoiError::InvalidSampleRate <==> x_len == y_len && fs == 0)
                &&& (e == StoiError::SignalTooShort <==> x_len == y_len && fs > 0
                    && resampled_len_spec(x_len as int, fs as int, ANALYSIS_RATE as int)
                    <= FRAME_LENGTH)
            },
        },
{
    if x_len != y_len {
        return Err(StoiError::ShapeMismatch);
    }
    let plan = match resample_plan(fs, ANALYSIS_RATE) {
        Ok(plan) => plan,
        Err(e) => {
            return Err(e);
        },
    };
    let resampled_len = match plan {
        ResamplePlan::Identity => {
            proof {
                lemma_identity_resampled_len(x_len as int, fs as int);
            }
            x_len
        },
        ResamplePlan::Polyphase(ratio) => {
            proof {
                vstd::arithmetic::mul::lemma_mul_inequality(
                    ratio.up as int,
                    ANALYSIS_RATE as int,
                    x_len as int,
                );
                vstd::arithmetic::mul::lemma_mul_is_commutative(ratio.up as int, x_len as int);
                vstd::arithmetic::mul::lemma_mul_is_commutative(
                    ANALYSIS_RATE as int,
                    x_len as int,
                );
            }
            output_len(x_len, ratio.up, ratio.down)
        },
    };
    let n = match frame_count(resampled_len) {
        Ok(n) => n,
        Err(e) => {
            return Err(e);
        },
    };
    Ok(StoiPlan { resample: plan, resampled_len, frame_count: n })
}

/// When the rates agree the reduced ratio is `1 / 1`, so the resampled
/// length is the input length.
proof fn lemma_identity_resampled_len(len: int, fs: int)
    requires
        fs > 0,
        len >= 0,
    ensures
        resampled_len_spec(len, fs, fs) == len,
{
    let g = gcd_spec(fs as nat, fs as nat);
    assert(g == fs) by {
        reveal_with_fuel(gcd_spec, 2);
        vstd::arithmetic::div_mod::lemma_mod_self_0(fs);
    }
    vstd::arithmetic::div_mod::lemma_div_by_self(fs);
    assert(len * 1 == len) by (nonlinear_arith);
    vstd::arithmetic::div_mod::lemma_div_basics_1(len);
}

} // verus!
