//! Integer geometry of the Kaiser-windowed sinc low-pass filter used for
//! polyphase resampling.
//!
//! The filter's normalized cutoff is `1 / (2 * max(up, down))` and its
//! transition width is a tenth of the cutoff, so the half-length formula
//! `(rejection - 8) / (28.714 * width)`, rounded up, reduces to the exact
//! rational `ceil(1040000 * max(up, down) / 28714)`, evaluated here in
//! integers.  The coefficients themselves are real numbers and are computed
//! outside the verified library; everything the computation indexes by —
//! lengths, phase counts, padding — is fixed here.

use crate::constants::{FILTER_LENGTH_DENOM, FILTER_LENGTH_NUMER};
use vstd::arithmetic::div_mod::lemma_fundamental_div_mod;
use vstd::prelude::*;

verus! {

/// Largest rate factor the filter geometry accepts; keeps every length
/// within the fixed-width integer range on any platform.
pub const MAX_RATE_FACTOR: usize = 10_000_000;

/// Half-length of the filter for the reduced ratio `up / down`:
/// `ceil(1040000 * max(up, down) / 28714)`.
pub open spec fn half_length_spec(m: int) -> int {
    (FILTER_LENGTH_NUMER * m + FILTER_LENGTH_DENOM - 1) / (FILTER_LENGTH_DENOM as int)
}

/// Everything about the filter's layout that the coefficient computation
/// and the polyphase schedule index by.
#[derive(Clone, Copy, Debug, PartialEq, Eq, Structural)]
pub struct FilterGeometry {
    /// Taps on each side of the center tap.
    pub half_length: usize,
    /// Total tap count: `2 * half_length + 1`.
    pub filter_length: usize,
    /// Taps per polyphase sub-filter: `ceil(filter_length / up)`.
    pub phase_length: usize,
    /// Zero samples added at each end of the input before filtering:
    /// `filter_length / (2 * up)`.
    pub padding: usize,
}

/// Compute the filter layout for a reduced ratio.
pub fn filter_geometry(up: usize, down: usize) -> (g: FilterGeometry)
    requires
        1 <= up <= MAX_RATE_FACTOR,
        1 <= down <= MAX_RATE_FACTOR,
    ensures
        g.half_length == half_length_spec(if up >= down {
            up as int
        } else {
            down as int
        }),
        g.half_length >= 37,
        g.filter_length == 2 * g.half_length + 1,
        g.phase_length == (g.filter_length + up - 1) / (up as int),
        g.phase_length * up >= g.filter_length,
        g.padding == g.filter_length as int / (2 * up as int),
{
    let m: usize = if up >= down {
        up
    } else {
        down
    };
    let numer: u64 = (FILTER_LENGTH_NUMER as u64) * (m as u64) + (FILTER_LENGTH_DENOM as u64 - 1);
    let half_u64: u64 = numer / (FILTER_LENGTH_DENOM as u64);
    proof {
        assert(numer <= 10400000000000u64 + 28713u64) by (nonlinear_arith)
            requires
                numer == 1040000u64 * (m as u64) + 28713u64,
                m <= 10_000_000,
        {}
        assert(half_u64 <= numer / 28714) by {
            vstd::arithmetic::div_mod::lemma_div_is_ordered(
                numer as int,
                10400000028713int,
                28714int,
            );
        }
    }
    let half_length: usize = half_u64 as usize;
    let filter_length: usize = 2 * half_length + 1;
    let phase_length: usize = (filter_length + up - 1) / up;
    let padding: usize = filter_length / (2 * up);
    proof {
        lemma_fundamental_div_mod((filter_length + up - 1) as int, up as int);
        vstd::arithmetic::mul::lemma_mul_is_commutative(phase_length as int, up as int);
    }
    FilterGeometry { half_length, filter_length, phase_length, padding }
}

} // verus!
