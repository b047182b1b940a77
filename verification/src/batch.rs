//! The batch fallback policy: one pair's failure never fails the batch.
//!
//! A batch of signal pairs is scored pair by pair; each pair's outcome
//! depends on that pair alone.  Merging the outcomes substitutes the
//! documented fallback score for a failed pair and keeps every other score
//! unchanged, in input order — so scoring a batch of `N` pairs returns,
//! element for element, exactly what `N` independent single-pair calls
//! return, with the fallback standing in wherever the single call fails.

use crate::error::StoiError;
use vstd::prelude::*;

verus! {

/// Merge per-pair outcomes into the batch result: entry `i` of the result
/// is entry `i`'s own score, or `fallback` exactly where that pair failed.
pub fn fill_failures<T: Copy>(results: &Vec<Result<T, StoiError>>, fallback: T) -> (r: Vec<T>)
    ensures
        r@.len() == results@.len(),
        forall|i: int|
            0 <= i < results@.len() ==> #[trigger] r@[i] == (match results@[i] {
                Ok(v) => v,
                Err(_) => fallback,
            }),
{
    let n = results.len();
    let mut r: Vec<T> = Vec::new();
    let mut i: usize = 0;
    while i < n
        invariant
            i <= n,
            n == results@.len(),
            r@.len() == i,
            forall|j: int|
                0 <= j < i ==> #[trigger] r@[j] == (match results@[j] {
                    Ok(v) => v,
                    Err(_) => fallback,
                }),
        decreases n - i,
    {
        match results[i] {
            Ok(v) => r.push(v),
            Err(_) => r.push(fallback),
        }
        i = i + 1;
    }
    r
}

} // verus!
