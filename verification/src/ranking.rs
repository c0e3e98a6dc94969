//! The songs of an artist by how often they were played, sorted with itertools.
use vstd::prelude::*;
use core::cmp::Ordering;
use crate::selection::{count_at, played_indices, play_count_keys, by_count};

verus! {

/// The order of two play counts.
pub open spec fn count_order(a: i64, b: i64) -> Ordering {
    if a < b {
        Ordering::Less
    } else if a == b {
        Ordering::Equal
    } else {
        Ordering::Greater
    }
}

/// Compares the play counts at two indices.
pub fn compare_counts(keys: &Vec<i64>, a: usize, b: usize) -> (r: Ordering)
    requires
        a < keys@.len(),
        b < keys@.len(),
    ensures
        r == count_order(count_at(keys@, a), count_at(keys@, b)),
{
    let x = keys[a];
    let y = keys[b];
    if x < y {
        Ordering::Less
    } else if x == y {
        Ordering::Equal
    } else {
        Ordering::Greater
    }
}

/// Calls `itertools::Itertools::sorted_by` on the indices of `keys`, compared by their play
/// counts, and collects the result. Its documentation: all elements, in ascending order of the
/// comparison, and the sort is stable, so indices with equal counts keep their order.
#[verifier::external_body]
fn sorted_by_count(keys: &Vec<i64>) -> (r: Vec<usize>)
    ensures
        by_count(keys@, r@),
{
    itertools::Itertools::sorted_by(0..keys.len(), |a: &usize, b: &usize| compare_counts(keys, *a, *b)).collect()
}

/// The songs with a play count, fewest plays first, songs played equally often in their
/// order: at most `count` of them, as indices of `play_counts`.
pub fn played_songs(play_counts: &Vec<Option<i64>>, count: usize) -> (r: Vec<usize>)
    ensures
        exists|s: Seq<usize>|
            by_count(play_count_keys(play_counts@), s) && r@ == s.take(
                if count < s.len() { count as int } else { s.len() as int },
            ).map_values(|k: usize| played_indices(play_counts@)[k as int]),
{
    let (played, keys) = crate::selection::played_with_counts(play_counts);
    let s = sorted_by_count(&keys);
    let limit = if count < s.len() { count } else { s.len() };
    let mut r: Vec<usize> = Vec::new();
    let mut k: usize = 0;
    while k < limit
        invariant
            limit <= s@.len(),
            by_count(keys@, s@),
            keys@ == play_count_keys(play_counts@),
            played@ == played_indices(play_counts@),
            keys@.len() == played@.len(),
            0 <= k <= limit,
            r@ == s@.take(k as int).map_values(|q: usize| played@[q as int]),
        decreases limit - k,
    {
        let q = s[k];
        proof {
            assert(s@[k as int] < keys@.len());
        }
        r.push(played[q]);
        proof {
            assert(s@.take(k + 1) =~= s@.take(k as int).push(q));
            assert(s@.take(k + 1).map_values(|q: usize| played@[q as int]) =~= s@.take(k as int).map_values(
                |q: usize| played@[q as int],
            ).push(played@[q as int]));
        }
        k = k + 1;
    }
    r
}

} // verus!
