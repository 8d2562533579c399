use std::collections::hash_map::RandomState;
use std::hash::BuildHasher;
use vstd::prelude::*;

verus! {

/// Calls `RandomState::new`, which std documents as making a state with
/// randomly chosen keys. Nothing is claimed of the state.
#[verifier::external_body]
fn fresh_state() -> (state: RandomState) {
    RandomState::new()
}

/// Calls `BuildHasher::hash_one` on `state` with `word`. Nothing is claimed
/// of the digest.
#[verifier::external_body]
fn digest(state: &RandomState, word: u64) -> (d: u64) {
    state.hash_one(word)
}

/// A word drawn from a freshly keyed std hasher. Which word comes is left
/// open: callers are verified for every value of it.
pub fn random_word() -> (w: u64) {
    let state = fresh_state();
    digest(&state, 0)
}

/// Folds an arbitrary word onto an index below `n`.
pub fn pick_index(word: u64, n: usize) -> (idx: usize)
    requires
        n > 0,
    ensures
        idx == word as int % n as int,
        idx < n,
{
    let m: u64 = n as u64;
    let r: u64 = word % m;
    r as usize
}

} // verus!
