//! Rational resampling ratios and the choice between the identity path and
//! the polyphase filter path.

use crate::error::StoiError;
use crate::gcd::{
    gcd_spec, gcd_usize, lemma_divisor_le, lemma_gcd_divides, lemma_gcd_symmetric,
    lemma_reduced_coprime,
};
use vstd::arithmetic::div_mod::lemma_fundamental_div_mod;
use vstd::prelude::*;

verus! {

/// A resampling ratio `up / down`, reduced by the greatest common divisor of
/// the two rates.  A signal of `n` samples resamples to `n * up / down`.
#[derive(Clone, Copy, Debug, PartialEq, Eq, Structural)]
pub struct ResampleRatio {
    pub up: usize,
    pub down: usize,
}

impl ResampleRatio {
    /// `self` is the reduced ratio that converts `from` Hz to `to` Hz.
    pub open spec fn is_reduction_of(self, from: nat, to: nat) -> bool {
        &&& self.up == to / gcd_spec(from, to)
        &&& self.down == from / gcd_spec(from, to)
    }

    /// Build the reduced ratio for a rate conversion.  Fails exactly on a
    /// degenerate (zero) rate.
    pub fn new(from: usize, to: usize) -> (r: Result<ResampleRatio, StoiError>)
        ensures
            r is Ok <==> (from > 0 && to > 0),
            match r {
                Ok(ratio) => {
                    &&& ratio.is_reduction_of(from as nat, to as nat)
                    &&& ratio.up >= 1
                    &&& ratio.down >= 1
                    &&& ratio.up <= to
                    &&& ratio.down <= from
                    &&& ratio.up * gcd_spec(from as nat, to as nat) == to
                    &&& ratio.down * gcd_spec(from as nat, to as nat) == from
                    &&& (ratio.up == ratio.down <==> from == to)
                    &&& (from == to ==> ratio.up == 1 && ratio.down == 1)
                    &&& gcd_spec(ratio.up as nat, ratio.down as nat) == 1
                },
                Err(e) => e == StoiError::InvalidSampleRate,
            },
    {
        if from == 0 || to == 0 {
            return Err(StoiError::InvalidSampleRate);
        }
        let g = gcd_usize(from, to);
        proof {
            lemma_gcd_divides(from as nat, to as nat);
            lemma_divisor_le(from as nat, g as nat);
            lemma_divisor_le(to as nat, g as nat);
        }
        let up = to / g;
        let down = from / g;
        proof {
            lemma_fundamental_div_mod(to as int, g as int);
            lemma_fundamental_div_mod(from as int, g as int);
            vstd::arithmetic::mul::lemma_mul_is_commutative(up as int, g as int);
            vstd::arithmetic::mul::lemma_mul_is_commutative(down as int, g as int);
            assert(up * g == to);
            assert(down * g == from);
            vstd::arithmetic::div_mod::lemma_div_nonincreasing(to as int, g as int);
            vstd::arithmetic::div_mod::lemma_div_nonincreasing(from as int, g as int);
            if from == to {
                assert(gcd_spec(from as nat, to as nat) == from) by {
                    reveal_with_fuel(gcd_spec, 2);
                    assert(to as nat % from as nat == 0) by {
                        vstd::arithmetic::div_mod::lemma_mod_self_0(from as int);
                    }
                }
                vstd::arithmetic::div_mod::lemma_div_by_self(from as int);
            }
            if up == down {
                assert(to == from);
            }
            lemma_reduced_coprime(from as nat, to as nat);
            if up >= 1 && down >= 1 {
                lemma_gcd_symmetric(down as nat, up as nat);
            }
        }
        Ok(ResampleRatio { up, down })
    }
}

/// How a signal reaches the internal analysis rate: unchanged when the rates
/// already agree, otherwise through the polyphase filter for a reduced ratio.
#[derive(Clone, Copy, Debug, PartialEq, Eq, Structural)]
pub enum ResamplePlan {
    /// The source rate equals the target rate; the signal is passed through.
    Identity,
    /// The signal runs through the polyphase low-pass filter for this ratio.
    Polyphase(ResampleRatio),
}

/// `plan` is the correct way to convert `from` Hz to `to` Hz: the identity
/// exactly when the rates agree, otherwise the reduced filter ratio.
pub open spec fn plan_matches(plan: ResamplePlan, from: nat, to: nat) -> bool {
    match plan {
        ResamplePlan::Identity => from == to,
        ResamplePlan::Polyphase(ratio) => from != to && ratio.is_reduction_of(from, to),
    }
}

/// Decide how a signal at `from` Hz reaches `to` Hz.  Resampling between
/// equal rates is the identity; a zero rate is rejected.
pub fn resample_plan(from: usize, to: usize) -> (r: Result<ResamplePlan, StoiError>)
    ensures
        r is Ok <==> (from > 0 && to > 0),
        match r {
            Ok(plan) => {
                &&& plan_matches(plan, from as nat, to as nat)
                &&& (plan is Identity <==> from == to)
                &&& match plan {
                    ResamplePlan::Identity => true,
                    ResamplePlan::Polyphase(ratio) => {
                        &&& ratio.up >= 1
                        &&& ratio.down >= 1
                        &&& ratio.up <= to
                        &&& ratio.down <= from
                        &&& ratio.up != ratio.down
                        &&& ratio.up * gcd_spec(from as nat, to as nat) == to
                        &&& ratio.down * gcd_spec(from as nat, to as nat) == from
                        &&& gcd_spec(ratio.up as nat, ratio.down as nat) == 1
                    },
                }
            },
            Err(e) => e == StoiError::InvalidSampleRate,
        },
{
    if from == 0 || to == 0 {
        return Err(StoiError::InvalidSampleRate);
    }
    if from == to {
        return Ok(ResamplePlan::Identity);
    }
    match ResampleRatio::new(from, to) {
        Ok(ratio) => Ok(ResamplePlan::Polyphase(ratio)),
        Err(e) => Err(e),
    }
}

/// Length of the resampled signal: `len * up / down`, the count of whole
/// output samples the polyphase filter produces.
pub fn output_len(len: usize, up: usize, down: usize) -> (r: usize)
    requires
        down >= 1,
        len * up <= usize::MAX,
    ensures
        r == len * up / down as int,
{
    (len * up) / down
}

} // verus!
