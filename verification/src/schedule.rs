//! The polyphase tap schedule: which sub-filter and which input window
//! produce each output sample of the resampler.
//!
//! The filter of `h_len` taps is split into `up` interleaved sub-filters
//! ("phases").  Output sample `k` of the conversion by `up / down` is the
//! inner product of one phase with a window of the zero-padded input.  The
//! phase index starts at `(h_len / 2) % up` and decreases by `down % up`
//! modulo `up` at every step, while the window start advances by `down / up`
//! plus one more step whenever the phase wraps.  This module proves the
//! closed forms of both index sequences and that every window start stays
//! inside the input.

use vstd::arithmetic::div_mod::{
    lemma_add_mod_noop, lemma_fundamental_div_mod, lemma_mod_add_multiples_vanish,
    lemma_mod_division_less_than_divisor, lemma_mod_self_0, lemma_small_mod,
};
use vstd::prelude::*;

verus! {

/// Where output sample `k` reads: the sub-filter `phase` and the start
/// `x_start` of its window in the padded input.
#[derive(Clone, Copy, Debug, PartialEq, Eq, Structural)]
pub struct TapPosition {
    pub x_start: usize,
    pub phase: usize,
}

/// Sub-filter used for output sample `k`: the start phase `(h_len / 2) % up`
/// advanced `k` times by `-(down % up)` modulo `up`.
pub open spec fn phase_at(h_len: nat, up: nat, down: nat, k: nat) -> nat
    recommends
        up >= 1,
{
    ((h_len / 2) % up + k * ((up - down % up) as nat)) % up
}

/// Window start for output sample `k`, as the loop steps it: `down / up`
/// more than the previous start, plus one when the phase wraps.
pub open spec fn start_at(h_len: nat, up: nat, down: nat, k: nat) -> nat
    recommends
        up >= 1,
    decreases k,
{
    if k == 0 {
        0
    } else {
        let prev = (k - 1) as nat;
        start_at(h_len, up, down, prev) + down / up + if phase_at(h_len, up, down, prev) < down
            % up {
            1nat
        } else {
            0nat
        }
    }
}

/// One step of the phase sequence: subtract `down % up`, wrapping by `up`.
pub proof fn lemma_phase_step(h_len: nat, up: nat, down: nat, k: nat)
    requires
        up >= 1,
    ensures
        phase_at(h_len, up, down, k) < up,
        phase_at(h_len, up, down, k + 1) == ({
            let s = down % up;
            let ph = phase_at(h_len, up, down, k);
            if ph >= s {
                (ph - s) as int
            } else {
                ph + up - s
            }
        }),
{
    let p0 = (h_len / 2) % up;
    let s = down % up;
    let t = (up - s) as nat;
    let a = p0 + k * t;
    let ph = phase_at(h_len, up, down, k);
    lemma_mod_division_less_than_divisor(a as int, up as int);
    assert((k + 1) * t == k * t + t) by (nonlinear_arith);
    lemma_add_mod_noop(a as int, t as int, up as int);
    assert(phase_at(h_len, up, down, k + 1) == (ph + t % up) % up);
    lemma_mod_division_less_than_divisor(down as int, up as int);
    if s == 0 {
        lemma_mod_self_0(up as int);
        assert(t % up == 0);
        lemma_small_mod(ph, up);
    } else {
        lemma_small_mod(t, up);
        assert(t % up == t);
        if ph < s {
            lemma_small_mod((ph + t) as nat, up);
        } else {
            let x = (ph + t - up) as nat;
            lemma_mod_add_multiples_vanish(x as int, up as int);
            lemma_small_mod(x, up);
            assert(((ph + t) as int) % (up as int) == x);
        }
    }
}

/// Closed form of the window start: `up * start_at(k)` equals the virtual
/// position `k * down`, corrected by the phase drift since the start phase.
pub proof fn lemma_start_closed(h_len: nat, up: nat, down: nat, k: nat)
    requires
        up >= 1,
    ensures
        up * start_at(h_len, up, down, k) == k * down + phase_at(h_len, up, down, k) - (h_len
            / 2) % up,
    decreases k,
{
    let p0 = (h_len / 2) % up;
    let s = down % up;
    let t = (up - s) as nat;
    if k == 0 {
        lemma_mod_division_less_than_divisor((h_len / 2) as int, up as int);
        assert(0 * t == 0);
        lemma_small_mod(p0, up);
        assert(phase_at(h_len, up, down, 0) == p0);
        assert(k * down == 0) by (nonlinear_arith)
            requires
                k == 0,
        {}
        assert(up * start_at(h_len, up, down, k) == 0) by (nonlinear_arith)
            requires
                start_at(h_len, up, down, k) == 0,
        {}
    } else {
        let prev = (k - 1) as nat;
        lemma_start_closed(h_len, up, down, prev);
        lemma_phase_step(h_len, up, down, prev);
        lemma_fundamental_div_mod(down as int, up as int);
        let ph = phase_at(h_len, up, down, prev);
        let st = start_at(h_len, up, down, prev);
        assert(k * down == prev * down + down) by (nonlinear_arith)
            requires
                k == prev + 1,
        {}
        assert(up * st == prev * down + ph - p0);
        assert(up * (down / up) == down - s);
        if ph >= s {
            assert(start_at(h_len, up, down, k) == st + down / up);
            assert(up * (st + down / up) == up * st + up * (down / up)) by (nonlinear_arith);
            assert(phase_at(h_len, up, down, k) == ph - s);
            assert(up * start_at(h_len, up, down, k) == up * st + (down - s));
            assert(up * start_at(h_len, up, down, k) == k * down + phase_at(h_len, up, down, k)
                - p0);
        } else {
            assert(start_at(h_len, up, down, k) == st + down / up + 1);
            assert(up * (st + down / up + 1) == up * st + up * (down / up) + up)
                by (nonlinear_arith);
            assert(phase_at(h_len, up, down, k) == ph + up - s);
            assert(up * start_at(h_len, up, down, k) == up * st + (down - s) + up);
            assert(up * start_at(h_len, up, down, k) == k * down + phase_at(h_len, up, down, k)
                - p0);
        }
    }
}

/// Every window start of the first `(x_len * up) / down` output samples
/// lies inside the input.
pub proof fn lemma_start_bound(h_len: nat, up: nat, down: nat, k: nat, x_len: nat)
    requires
        up >= 1,
        down >= 1,
        k < (x_len * up) / down,
    ensures
        start_at(h_len, up, down, k) <= x_len,
{
    let out = (x_len * up) / down;
    let p0 = (h_len / 2) % up;
    let ph = phase_at(h_len, up, down, k);
    let st = start_at(h_len, up, down, k);
    lemma_start_closed(h_len, up, down, k);
    lemma_phase_step(h_len, up, down, k);
    lemma_fundamental_div_mod((x_len * up) as int, down as int);
    lemma_mod_division_less_than_divisor((x_len * up) as int, down as int);
    assert(down * out <= x_len * up);
    assert(k * down <= out * down - down) by (nonlinear_arith)
        requires
            k + 1 <= out,
            down >= 1,
    {}
    assert(out * down == down * out) by (nonlinear_arith);
    assert(up * st <= x_len * up + up - 2);
    assert(up * (x_len + 1) == x_len * up + up) by (nonlinear_arith);
    assert(st < x_len + 1) by (nonlinear_arith)
        requires
            up >= 1,
            up * st < up * (x_len + 1),
    {}
}

/// Build the full tap schedule for an input of `x_len` samples converted by
/// the reduced ratio `up / down` with a filter of `h_len` taps.  Entry `k`
/// gives the sub-filter and padded-window start for output sample `k`; every
/// start lies inside the input.
pub fn upfirdn_schedule(h_len: usize, x_len: usize, up: usize, down: usize) -> (r: Vec<
    TapPosition,
>)
    requires
        1 <= up,
        1 <= down,
        up <= usize::MAX / 2,
        x_len * up <= usize::MAX,
    ensures
        r@.len() == x_len * up / down as int,
        forall|k: int|
            0 <= k < r@.len() ==> (#[trigger] r@[k]).phase == phase_at(
                h_len as nat,
                up as nat,
                down as nat,
                k as nat,
            ),
        forall|k: int|
            0 <= k < r@.len() ==> (#[trigger] r@[k]).x_start == start_at(
                h_len as nat,
                up as nat,
                down as nat,
                k as nat,
            ),
        forall|k: int| 0 <= k < r@.len() ==> (#[trigger] r@[k]).phase < up,
        forall|k: int| 0 <= k < r@.len() ==> (#[trigger] r@[k]).x_start <= x_len,
{
    let out_len = (x_len * up) / down;
    let mut r: Vec<TapPosition> = Vec::new();
    let mut phase: usize = (h_len / 2) % up;
    let phase_step: usize = down % up;
    let x_step: usize = down / up;
    let mut x_start: usize = 0;
    let mut k: usize = 0;
    proof {
        lemma_mod_division_less_than_divisor((h_len / 2) as int, up as int);
        assert(0 * ((up - down % up) as nat) == 0);
        lemma_small_mod(((h_len / 2) % up) as nat, up as nat);
    }
    while k < out_len
        invariant
            k <= out_len,
            1 <= up,
            1 <= down,
            up <= usize::MAX / 2,
            x_len * up <= usize::MAX,
            out_len == x_len * up / down as int,
            phase_step == down % up,
            x_step == down / up,
            r@.len() == k,
            k < out_len ==> phase == phase_at(h_len as nat, up as nat, down as nat, k as nat),
            k < out_len ==> x_start == start_at(h_len as nat, up as nat, down as nat, k as nat),
            forall|j: int|
                0 <= j < k ==> (#[trigger] r@[j]).phase == phase_at(
                    h_len as nat,
                    up as nat,
                    down as nat,
                    j as nat,
                ),
            forall|j: int|
                0 <= j < k ==> (#[trigger] r@[j]).x_start == start_at(
                    h_len as nat,
                    up as nat,
                    down as nat,
                    j as nat,
                ),
            forall|j: int| 0 <= j < k ==> (#[trigger] r@[j]).phase < up,
            forall|j: int| 0 <= j < k ==> (#[trigger] r@[j]).x_start <= x_len,
        decreases out_len - k,
    {
        proof {
            lemma_phase_step(h_len as nat, up as nat, down as nat, k as nat);
            lemma_start_bound(h_len as nat, up as nat, down as nat, k as nat, x_len as nat);
        }
        r.push(TapPosition { x_start, phase });
        k = k + 1;
        if k < out_len {
            proof {
                lemma_start_bound(h_len as nat, up as nat, down as nat, k as nat, x_len as nat);
            }
            x_start = x_start + x_step;
            if phase >= phase_step {
                phase = phase - phase_step;
            } else {
                phase = phase + (up - phase_step);
                x_start = x_start + 1;
            }
        }
    }
    r
}

} // verus!
