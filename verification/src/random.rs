//! Random orders and random samples, drawn with the thread-local generator of `rand`.
use vstd::prelude::*;
use rand::rngs::ThreadRng;

verus! {

/// The thread-local random number generator of `rand`.
#[verifier::external_type_specification]
#[verifier::external_body]
pub struct ExThreadRng(rand::rngs::ThreadRng);

/// Calls `rand::rng()`, which hands out the thread-local generator; nothing is stated of it.
#[verifier::external_body]
pub(crate) fn thread_rng() -> ThreadRng {
    rand::rng()
}

/// Calls `rand::seq::SliceRandom::shuffle` on the vector's slice. It permutes the elements in
/// place: the same elements, each as often as before, in an order that is left open.
#[verifier::external_body]
pub(crate) fn shuffle<T>(v: &mut Vec<T>, rng: &mut ThreadRng)
    ensures
        final(v)@.to_multiset() == old(v)@.to_multiset(),
{
    rand::seq::SliceRandom::shuffle(v.as_mut_slice(), rng)
}

/// Calls `rand::seq::IteratorRandom::choose_multiple` on the range `0..n`: `min(amount, n)`
/// distinct numbers below `n`, in an order that is left open.
#[verifier::external_body]
pub(crate) fn choose_indices(n: usize, amount: usize, rng: &mut ThreadRng) -> (r: Vec<usize>)
    ensures
        r@.len() == if amount < n { amount } else { n },
        r@.no_duplicates(),
        forall|k: int| 0 <= k < r@.len() ==> #[trigger] r@[k] < n,
{
    rand::seq::IteratorRandom::choose_multiple(0..n, rng, amount)
}

} // verus!
