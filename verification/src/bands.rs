//! The one-third-octave band layout over the one-sided spectrum.
//!
//! Fifteen bands with center frequencies `150 * 2^(k/3)` Hz cover the
//! analysis band.  Band `k` runs from edge `150 * 2^((2k-1)/6)` Hz to edge
//! `150 * 2^((2k+1)/6)` Hz; each edge is mapped to the nearest bin of the
//! 512-point transform at the 10 kHz analysis rate (bin width
//! `10000 / 512` Hz), and a band sums the bins from its lower edge bin up
//! to, but not including, its upper edge bin.  The sixteen rounded edge
//! bins are fixed by those constants and are tabulated here; consecutive
//! bands share an edge, so the bands tile the covered bins without overlap.

use crate::constants::{FFT_BINS, NUM_BANDS};
use vstd::prelude::*;

verus! {

/// The sixteen edge bins: entry `k` is the nearest bin to the lower edge of
/// band `k`, and entry `NUM_BANDS` closes the last band.
pub open spec fn band_edges_spec() -> Seq<usize> {
    seq![7usize, 9, 11, 14, 17, 22, 27, 34, 43, 55, 69, 87, 109, 138, 174, 219]
}

/// The edge-bin table as a vector: strictly increasing, inside the
/// one-sided spectrum.
pub fn band_edges() -> (r: Vec<usize>)
    ensures
        r@ == band_edges_spec(),
        r@.len() == NUM_BANDS + 1,
        forall|i: int| 0 <= i < NUM_BANDS ==> #[trigger] r@[i] < r@[i + 1],
        forall|i: int| 0 <= i <= NUM_BANDS ==> #[trigger] r@[i] < FFT_BINS,
{
    let mut r: Vec<usize> = Vec::new();
    r.push(7);
    r.push(9);
    r.push(11);
    r.push(14);
    r.push(17);
    r.push(22);
    r.push(27);
    r.push(34);
    r.push(43);
    r.push(55);
    r.push(69);
    r.push(87);
    r.push(109);
    r.push(138);
    r.push(174);
    r.push(219);
    proof {
        assert(r@ =~= band_edges_spec());
    }
    r
}

/// The bin range `[lo, hi)` of one band: its edge bin and the next band's.
pub fn band_bin_range(band: usize) -> (r: (usize, usize))
    requires
        band < NUM_BANDS,
    ensures
        r.0 == band_edges_spec()[band as int],
        r.1 == band_edges_spec()[band as int + 1],
        r.0 < r.1,
        r.1 < FFT_BINS,
{
    let edges = band_edges();
    let lo = edges[band];
    let hi = edges[band + 1];
    (lo, hi)
}

} // verus!
