//! Frame layout over a signal, the silence-mask bookkeeping, and segment
//! counts over the kept frames.
//!
//! A signal of `len` samples is cut into overlapping frames of
//! `FRAME_LENGTH` samples every `HOP_LENGTH` samples.  Frames below the
//! dynamic-range threshold are marked silent; of the frames that pass, the
//! last is discarded (the reference algorithm's boundary rule), the first
//! kept frame is windowed with the start window and every other kept frame
//! with the center window.  Segments then slide over the kept frames.

use crate::constants::{FRAME_LENGTH, HOP_LENGTH, SEGMENT_LENGTH};
use crate::error::StoiError;
use vstd::prelude::*;

verus! {

/// Number of frames laid over a signal of `len` samples; meaningful only
/// for `len > FRAME_LENGTH`.
pub open spec fn frame_count_spec(len: int) -> int
    recommends
        len > FRAME_LENGTH,
{
    1 + (len - FRAME_LENGTH - 1) / (HOP_LENGTH as int)
}

/// Number of frames over a signal, or `SignalTooShort` when not even one
/// frame fits with room for the hop rule.
pub fn frame_count(len: usize) -> (r: Result<usize, StoiError>)
    ensures
        r is Ok <==> len > FRAME_LENGTH,
        match r {
            Ok(n) => {
                &&& n == frame_count_spec(len as int)
                &&& n >= 1
                &&& forall|i: int| 0 <= i < n ==> #[trigger] (i * HOP_LENGTH) + FRAME_LENGTH <= len
            },
            Err(e) => e == StoiError::SignalTooShort,
        },
{
    if len <= FRAME_LENGTH {
        return Err(StoiError::SignalTooShort);
    }
    let n = 1 + (len - FRAME_LENGTH - 1) / HOP_LENGTH;
    proof {
        let q = (len - FRAME_LENGTH - 1) as int / (HOP_LENGTH as int);
        vstd::arithmetic::div_mod::lemma_fundamental_div_mod(
            (len - FRAME_LENGTH - 1) as int,
            HOP_LENGTH as int,
        );
        assert forall|i: int| 0 <= i < n implies #[trigger] (i * HOP_LENGTH) + FRAME_LENGTH
            <= len by {
            assert(i <= q);
            vstd::arithmetic::mul::lemma_mul_inequality(i, q, HOP_LENGTH as int);
        }
    }
    Ok(n)
}

/// Start offsets of every frame: frame `i` covers
/// `[i * HOP_LENGTH, i * HOP_LENGTH + FRAME_LENGTH)`, inside the signal.
pub fn frame_starts(len: usize) -> (r: Result<Vec<usize>, StoiError>)
    ensures
        r is Ok <==> len > FRAME_LENGTH,
        match r {
            Ok(starts) => {
                &&& starts@.len() == frame_count_spec(len as int)
                &&& forall|i: int|
                    0 <= i < starts@.len() ==> #[trigger] starts@[i] == i * HOP_LENGTH
                &&& forall|i: int|
                    0 <= i < starts@.len() ==> #[trigger] starts@[i] + FRAME_LENGTH <= len
            },
            Err(e) => e == StoiError::SignalTooShort,
        },
{
    let n = match frame_count(len) {
        Ok(n) => n,
        Err(e) => {
            return Err(e);
        },
    };
    let mut starts: Vec<usize> = Vec::new();
    let mut i: usize = 0;
    while i < n
        invariant
            i <= n,
            n == frame_count_spec(len as int),
            starts@.len() == i,
            forall|j: int| 0 <= j < n ==> #[trigger] (j * HOP_LENGTH) + FRAME_LENGTH <= len,
            forall|j: int| 0 <= j < i ==> #[trigger] starts@[j] == j * HOP_LENGTH,
        decreases n - i,
    {
        assert(i * HOP_LENGTH + FRAME_LENGTH <= len);
        starts.push(i * HOP_LENGTH);
        i = i + 1;
    }
    Ok(starts)
}

/// What happens to each frame once the silence mask is known.
#[derive(Clone, Copy, Debug, PartialEq, Eq, Structural)]
pub enum FrameRole {
    /// Below the dynamic-range threshold: not scored.
    Silent,
    /// The first kept frame: windowed with the start window.
    Leading,
    /// A kept frame with kept neighbours on both sides: center window.
    Interior,
    /// The last frame that passed the threshold: discarded by the boundary
    /// rule, even though it carries real data.
    Trimmed,
}

/// How many entries of the mask are set.
pub open spec fn count_true(m: Seq<bool>) -> nat
    decreases m.len(),
{
    if m.len() == 0 {
        0
    } else {
        count_true(m.drop_last()) + if m.last() {
            1nat
        } else {
            0nat
        }
    }
}

/// Counting a prefix one entry longer adds the entry itself.
pub proof fn lemma_count_true_step(m: Seq<bool>, i: int)
    requires
        0 <= i < m.len(),
    ensures
        count_true(m.take(i + 1)) == count_true(m.take(i)) + if m[i] {
            1nat
        } else {
            0nat
        },
{
    assert(m.take(i + 1).drop_last() =~= m.take(i));
    assert(m.take(i + 1).last() == m[i]);
}

/// Counting the whole mask is counting its full prefix.
pub proof fn lemma_count_true_all(m: Seq<bool>)
    ensures
        count_true(m.take(m.len() as int)) == count_true(m),
{
    assert(m.take(m.len() as int) =~= m);
}

/// The role of frame `i` under mask `m`: the last set entry is trimmed, the
/// first of the remaining set entries leads, the rest are interior.
pub open spec fn role_spec(m: Seq<bool>, i: int) -> FrameRole
    recommends
        0 <= i < m.len(),
{
    if !m[i] {
        FrameRole::Silent
    } else if count_true(m.take(i + 1)) == count_true(m) {
        FrameRole::Trimmed
    } else if count_true(m.take(i)) == 0 {
        FrameRole::Leading
    } else {
        FrameRole::Interior
    }
}

/// Number of frames that are scored under mask `m`: every set entry except
/// the trimmed last one.
pub open spec fn kept_count_spec(m: Seq<bool>) -> nat {
    if count_true(m) == 0 {
        0
    } else {
        (count_true(m) - 1) as nat
    }
}

/// Count the set entries of a silence mask.
pub fn mask_count(mask: &Vec<bool>) -> (r: usize)
    ensures
        r == count_true(mask@),
{
    let n = mask.len();
    let mut count: usize = 0;
    let mut i: usize = 0;
    while i < n
        invariant
            i <= n,
            n == mask@.len(),
            count == count_true(mask@.take(i as int)),
            count <= i,
        decreases n - i,
    {
        proof {
            lemma_count_true_step(mask@, i as int);
        }
        if mask[i] {
            count = count + 1;
        }
        i = i + 1;
    }
    proof {
        lemma_count_true_all(mask@);
    }
    count
}

/// Assign every frame its role under the silence mask, and return the count
/// of frames that stay in the analysis (`kept_count_spec`).
pub fn select_frames(mask: &Vec<bool>) -> (r: (Vec<FrameRole>, usize))
    ensures
        r.0@.len() == mask@.len(),
        forall|i: int| 0 <= i < mask@.len() ==> #[trigger] r.0@[i] == role_spec(mask@, i),
        r.1 == kept_count_spec(mask@),
{
    let total = mask_count(mask);
    let n = mask.len();
    let mut roles: Vec<FrameRole> = Vec::new();
    let mut seen: usize = 0;
    let mut i: usize = 0;
    while i < n
        invariant
            i <= n,
            n == mask@.len(),
            total == count_true(mask@),
            roles@.len() == i,
            seen == count_true(mask@.take(i as int)),
            seen <= i,
            seen <= total,
            forall|j: int| 0 <= j < i ==> #[trigger] roles@[j] == role_spec(mask@, j),
        decreases n - i,
    {
        proof {
            lemma_count_true_step(mask@, i as int);
        }
        if mask[i] {
            if seen + 1 == total {
                roles.push(FrameRole::Trimmed);
            } else if seen == 0 {
                roles.push(FrameRole::Leading);
            } else {
                roles.push(FrameRole::Interior);
            }
            seen = seen + 1;
        } else {
            roles.push(FrameRole::Silent);
        }
        proof {
            lemma_count_true_prefix_le(mask@, i + 1 as int);
        }
        i = i + 1;
    }
    let kept = if total == 0 { 0 } else { total - 1 };
    (roles, kept)
}

/// A prefix never holds more set entries than the whole mask.
pub proof fn lemma_count_true_prefix_le(m: Seq<bool>, i: int)
    requires
        0 <= i <= m.len(),
    ensures
        count_true(m.take(i)) <= count_true(m),
    decreases m.len() - i,
{
    if i < m.len() {
        lemma_count_true_step(m, i);
        lemma_count_true_prefix_le(m, i + 1);
    } else {
        lemma_count_true_all(m);
    }
}

/// The positions of the set mask entries, in increasing order.
pub open spec fn true_indices(m: Seq<bool>) -> Seq<usize>
    decreases m.len(),
{
    if m.len() == 0 {
        Seq::empty()
    } else if m.last() {
        true_indices(m.drop_last()).push((m.len() - 1) as usize)
    } else {
        true_indices(m.drop_last())
    }
}

/// Looking one entry further appends its position exactly when it is set.
proof fn lemma_true_indices_step(m: Seq<bool>, i: int)
    requires
        0 <= i < m.len(),
    ensures
        true_indices(m.take(i + 1)) == if m[i] {
            true_indices(m.take(i)).push(i as usize)
        } else {
            true_indices(m.take(i))
        },
{
    assert(m.take(i + 1).drop_last() =~= m.take(i));
    assert(m.take(i + 1).last() == m[i]);
}

/// There is one kept position per set mask entry.
pub proof fn lemma_true_indices_len(m: Seq<bool>)
    ensures
        true_indices(m).len() == count_true(m),
    decreases m.len(),
{
    if m.len() > 0 {
        lemma_true_indices_len(m.drop_last());
    }
}

/// The positions of the frames the mask keeps, in order.  Downstream
/// stages are sized to these frames alone: a frame the mask drops is
/// skipped entirely, not zero-filled.
pub fn kept_indices(mask: &Vec<bool>) -> (r: Vec<usize>)
    ensures
        r@ == true_indices(mask@),
        r@.len() == count_true(mask@),
{
    let n = mask.len();
    let mut r: Vec<usize> = Vec::new();
    let mut i: usize = 0;
    while i < n
        invariant
            i <= n,
            n == mask@.len(),
            r@ == true_indices(mask@.take(i as int)),
        decreases n - i,
    {
        proof {
            lemma_true_indices_step(mask@, i as int);
        }
        if mask[i] {
            r.push(i);
        }
        i = i + 1;
    }
    proof {
        assert(mask@.take(n as int) =~= mask@);
        lemma_true_indices_len(mask@);
    }
    r
}

/// Number of overlapping segments over `kept` frames: a `SEGMENT_LENGTH`
/// window slides with stride one, and none fits when fewer frames than one
/// segment remain.
pub open spec fn segment_count_spec(kept: nat) -> nat {
    if kept >= SEGMENT_LENGTH {
        (kept - SEGMENT_LENGTH + 1) as nat
    } else {
        0
    }
}

/// Number of segments over `kept` frames.
pub fn segment_count(kept: usize) -> (r: usize)
    ensures
        r == segment_count_spec(kept as nat),
{
    if kept >= SEGMENT_LENGTH {
        kept - SEGMENT_LENGTH + 1
    } else {
        0
    }
}

/// Number of segments, or `SignalTooShort` when no whole segment fits —
/// the composite score would otherwise be undefined.
pub fn check_segments(kept: usize) -> (r: Result<usize, StoiError>)
    ensures
        r is Ok <==> kept >= SEGMENT_LENGTH,
        match r {
            Ok(s) => s == segment_count_spec(kept as nat) && s >= 1,
            Err(e) => e == StoiError::SignalTooShort,
        },
{
    if kept >= SEGMENT_LENGTH {
        Ok(kept - SEGMENT_LENGTH + 1)
    } else {
        Err(StoiError::SignalTooShort)
    }
}

/// Offsets at which consecutive kept frames are overlap-added when the
/// silent frames are removed in the time domain: the `j`-th kept frame
/// lands at `j * hop`.
pub fn ola_offsets(kept: usize, hop: usize) -> (r: Vec<usize>)
    requires
        kept * hop <= usize::MAX,
    ensures
        r@.len() == kept,
        forall|j: int| 0 <= j < kept ==> #[trigger] r@[j] == j * hop,
{
    let mut r: Vec<usize> = Vec::new();
    let mut j: usize = 0;
    while j < kept
        invariant
            j <= kept,
            kept * hop <= usize::MAX,
            r@.len() == j,
            forall|t: int| 0 <= t < j ==> #[trigger] r@[t] == t * hop,
        decreases kept - j,
    {
        proof {
            vstd::arithmetic::mul::lemma_mul_inequality(j as int, kept as int, hop as int);
        }
        r.push(j * hop);
        j = j + 1;
    }
    r
}

/// Total sample count of the overlap-added signal built from `kept`
/// frames: the last frame starts at `(kept - 1) * hop` and runs a whole
/// frame of `frame_len` samples.
pub fn ola_total_len(kept: usize, hop: usize, frame_len: usize) -> (r: usize)
    requires
        kept >= 1,
        kept * hop + frame_len <= usize::MAX,
    ensures
        r == (kept - 1) * hop + frame_len,
{
    proof {
        vstd::arithmetic::mul::lemma_mul_inequality(kept as int - 1, kept as int, hop as int);
    }
    (kept - 1) * hop + frame_len
}

/// Number of frames among the first `i` whose role keeps them in the
/// analysis (leading or interior).
pub open spec fn kept_in_prefix(m: Seq<bool>, i: int) -> nat
    recommends
        0 <= i <= m.len(),
    decreases i,
{
    if i <= 0 {
        0
    } else {
        kept_in_prefix(m, i - 1) + match role_spec(m, i - 1) {
            FrameRole::Leading => 1nat,
            FrameRole::Interior => 1nat,
            _ => 0nat,
        }
    }
}

/// Running form of the mask invariant: among the first `i` frames, the
/// kept roles number the set entries seen so far, less one once the
/// prefix already holds every set entry (the last of them is trimmed).
proof fn lemma_kept_in_prefix(m: Seq<bool>, i: int)
    requires
        0 <= i <= m.len(),
    ensures
        kept_in_prefix(m, i) == count_true(m.take(i)) - (if count_true(m) > 0 && count_true(
            m.take(i),
        ) == count_true(m) {
            1int
        } else {
            0int
        }),
    decreases i,
{
    if i == 0 {
        assert(m.take(0) =~= Seq::<bool>::empty());
    } else {
        lemma_kept_in_prefix(m, i - 1);
        lemma_count_true_step(m, i - 1);
        lemma_count_true_prefix_le(m, i);
        let c = count_true(m.take(i - 1));
        if m[i - 1] {
            assert(count_true(m.take(i)) == c + 1);
            if c + 1 == count_true(m) {
                assert(role_spec(m, i - 1) == FrameRole::Trimmed);
            } else {
                assert(role_spec(m, i - 1) == FrameRole::Leading || role_spec(m, i - 1)
                    == FrameRole::Interior);
            }
        } else {
            assert(role_spec(m, i - 1) == FrameRole::Silent);
        }
    }
}

/// The silence mask and the kept count are consistent: the frames that
/// receive a scoring window under `role_spec` number exactly
/// `kept_count_spec(m)` — every set entry of the mask except the trimmed
/// last one.
pub proof fn lemma_mask_count_consistent(m: Seq<bool>)
    ensures
        kept_in_prefix(m, m.len() as int) == kept_count_spec(m),
{
    lemma_kept_in_prefix(m, m.len() as int);
    lemma_count_true_all(m);
}

} // verus!
