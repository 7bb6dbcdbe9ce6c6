//! Random choices, drawn from the thread-local generator of `rand`.
use vstd::prelude::*;

use rand::seq::IteratorRandom;
use rand::seq::SliceRandom;

verus! {

/// A random index below `len`, or `None` when `len` is zero.
///
/// Calls `rand::seq::IteratorRandom::choose` on the range `0..len` with
/// `rand::thread_rng()`. For a range the source returns `None` exactly when it is
/// empty and otherwise one of its elements; which one is left to chance and is
/// not stated.
#[verifier::external_body]
pub fn choose_index(len: usize) -> (r: Option<usize>)
    ensures
        r is None <==> len == 0,
        r matches Some(i) ==> i < len,
{
    (0..len).choose(&mut rand::thread_rng())
}

/// Puts the items of `v` in a random order.
///
/// Calls `rand::seq::SliceRandom::shuffle` with `rand::thread_rng()`; its source only swaps
/// items of the slice, so the same items stay, each as often as before. The order is left to
/// chance and is not stated.
#[verifier::external_body]
pub fn shuffle_vec<T>(v: &mut Vec<T>)
    ensures
        final(v)@.len() == old(v)@.len(),
        final(v)@.to_multiset() == old(v)@.to_multiset(),
{
    v.shuffle(&mut rand::thread_rng());
}

} // verus!
