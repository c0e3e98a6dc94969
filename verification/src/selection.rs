//! Choosing which albums and songs the dashboard and the artist page show: the first ones by
//! an order, or some at random.
use vstd::prelude::*;
use crate::random::{choose_indices, shuffle, thread_rng};

verus! {

/// Whether item `a` (with key `ka`) comes before item `b` (with key `kb`): by key, largest
/// first when `descending`, smallest first otherwise; items with equal keys keep their order.
pub open spec fn precedes(ka: (i64, i64), a: int, kb: (i64, i64), b: int, descending: bool) -> bool {
    if ka == kb {
        a < b
    } else if descending {
        ka.0 > kb.0 || (ka.0 == kb.0 && ka.1 > kb.1)
    } else {
        ka.0 < kb.0 || (ka.0 == kb.0 && ka.1 < kb.1)
    }
}

/// `r` lists the first `min(count, keys.len())` indices of `keys` in the order `precedes`
/// sorts them: the same indices, in the same order, as a stable sort takes first.
pub open spec fn first_by_order(keys: Seq<(i64, i64)>, count: nat, descending: bool, r: Seq<usize>) -> bool {
    &&& r.len() == if count < keys.len() { count } else { keys.len() }
    &&& r.no_duplicates()
    &&& forall|k: int| 0 <= k < r.len() ==> #[trigger] r[k] < keys.len()
    &&& forall|k: int, m: int|
        0 <= k < m < r.len() ==> precedes(keys[r[k] as int], r[k] as int, keys[r[m] as int], r[m] as int, descending)
    &&& forall|k: int, j: int|
        #![trigger r[k], keys[j]]
        0 <= k < r.len() && 0 <= j < keys.len() && !r.contains(j as usize) ==> precedes(
            keys[r[k] as int],
            r[k] as int,
            keys[j],
            j,
            descending,
        )
}

fn precedes_exec(ka: (i64, i64), a: usize, kb: (i64, i64), b: usize, descending: bool) -> (r: bool)
    ensures
        r == precedes(ka, a as int, kb, b as int, descending),
{
    if ka.0 == kb.0 && ka.1 == kb.1 {
        a < b
    } else if descending {
        ka.0 > kb.0 || (ka.0 == kb.0 && ka.1 > kb.1)
    } else {
        ka.0 < kb.0 || (ka.0 == kb.0 && ka.1 < kb.1)
    }
}

proof fn lemma_precedes_total(ka: (i64, i64), a: int, kb: (i64, i64), b: int, d: bool)
    requires
        a != b,
    ensures
        precedes(ka, a, kb, b, d) || precedes(kb, b, ka, a, d),
        !(precedes(ka, a, kb, b, d) && precedes(kb, b, ka, a, d)),
{
}

proof fn lemma_precedes_trans(ka: (i64, i64), a: int, kb: (i64, i64), b: int, kc: (i64, i64), c: int, d: bool)
    requires
        precedes(ka, a, kb, b, d),
        precedes(kb, b, kc, c, d),
    ensures
        precedes(ka, a, kc, c, d),
{
}

/// The indices of the first `count` items by key (largest keys first when `descending`),
/// items with equal keys in their order: what a stable sort by key followed by taking
/// `count` items yields.
pub fn first_indices_by_key(keys: &Vec<(i64, i64)>, count: usize, descending: bool) -> (r: Vec<usize>)
    ensures
        first_by_order(keys@, count as nat, descending, r@),
{
    let n = keys.len();
    let mut taken: Vec<bool> = Vec::new();
    let mut t: usize = 0;
    while t < n
        invariant
            0 <= t <= n,
            taken@.len() == t,
            forall|j: int| 0 <= j < t ==> !taken@[j],
        decreases n - t,
    {
        taken.push(false);
        t = t + 1;
    }
    let limit = if count < n { count } else { n };
    let mut r: Vec<usize> = Vec::new();
    proof {
        lemma_count_set_none(taken@);
    }
    while r.len() < limit
        invariant
            n == keys@.len(),
            count_set(taken@) == r@.len(),
            limit <= n,
            limit == if count < n { count } else { n },
            taken@.len() == n,
            r@.len() <= limit,
            r@.no_duplicates(),
            forall|k: int| 0 <= k < r@.len() ==> #[trigger] r@[k] < n,
            forall|j: int| 0 <= j < n ==> (#[trigger] taken@[j] <==> r@.contains(j as usize)),
            forall|k: int, m: int|
                0 <= k < m < r@.len() ==> precedes(keys@[r@[k] as int], r@[k] as int, keys@[r@[m] as int], r@[m] as int, descending),
            forall|k: int, j: int|
                #![trigger r@[k], keys@[j]]
                0 <= k < r@.len() && 0 <= j < n && !r@.contains(j as usize) ==> precedes(
                    keys@[r@[k] as int],
                    r@[k] as int,
                    keys@[j],
                    j,
                    descending,
                ),
        decreases limit - r@.len(),
    {
        let mut best: usize = n;
        let mut j: usize = 0;
        while j < n
            invariant
                n == keys@.len(),
                taken@.len() == n,
                0 <= j <= n,
                r@.len() < limit,
                limit <= n,
                forall|x: int| 0 <= x < n ==> (#[trigger] taken@[x] <==> r@.contains(x as usize)),
                best == n || (best < j && !taken@[best as int]),
                best == n ==> forall|x: int| 0 <= x < j ==> #[trigger] taken@[x],
                best < n ==> forall|x: int| 0 <= x < j && !taken@[x] && x != best ==> precedes(
                    keys@[best as int],
                    best as int,
                    #[trigger] keys@[x],
                    x,
                    descending,
                ),
            decreases n - j,
        {
            if !taken[j] {
                if best == n || precedes_exec(keys[j], j, keys[best], best, descending) {
                    proof {
                        if best < n {
                            assert forall|x: int| 0 <= x < j + 1 && !taken@[x] && x != j implies precedes(
                                keys@[j as int],
                                j as int,
                                #[trigger] keys@[x],
                                x,
                                descending,
                            ) by {
                                if x != best {
                                    lemma_precedes_trans(keys@[j as int], j as int, keys@[best as int], best as int, keys@[x], x, descending);
                                }
                            }
                        }
                    }
                    best = j;
                } else {
                    proof {
                        lemma_precedes_total(keys@[j as int], j as int, keys@[best as int], best as int, descending);
                    }
                }
            }
            j = j + 1;
        }
        proof {
            if best == n {
                // every index is taken, so r holds all n indices: more than `limit`
                lemma_count_set_all(taken@);
                assert(false);
            }
        }
        let ghost old_r = r@;
        let ghost old_taken = taken@;
        r.push(best);
        taken.set(best, true);
        proof {
            lemma_count_set_update(old_taken, best as int);
            assert(r@[old_r.len() as int] == best);
            assert(r@.contains(best));
            assert(!old_r.contains(best));
            assert forall|x: int| 0 <= x < n implies (#[trigger] taken@[x] <==> r@.contains(x as usize)) by {
                if x == best as int {
                    assert(r@[old_r.len() as int] == best);
                } else {
                    if old_r.contains(x as usize) {
                        let k = choose|k: int| 0 <= k < old_r.len() && old_r[k] == x as usize;
                        assert(r@[k] == x as usize);
                    }
                    if r@.contains(x as usize) {
                        let k = choose|k: int| 0 <= k < r@.len() && r@[k] == x as usize;
                        assert(k < old_r.len());
                        assert(old_r[k] == x as usize);
                    }
                }
            }
            assert forall|k: int, m: int| 0 <= k < m < r@.len() implies precedes(
                keys@[r@[k] as int],
                r@[k] as int,
                keys@[r@[m] as int],
                r@[m] as int,
                descending,
            ) by {
                if m == old_r.len() {
                    assert(!old_r.contains(best));
                    assert(old_r[k] == r@[k]);
                }
            }
            assert forall|k: int, j: int|
                #![trigger r@[k], keys@[j]]
                0 <= k < r@.len() && 0 <= j < n && !r@.contains(j as usize) implies precedes(
                    keys@[r@[k] as int],
                    r@[k] as int,
                    keys@[j],
                    j,
                    descending,
                ) by {
                assert(j != best as int);
                if k < old_r.len() {
                    assert(r@[k] == old_r[k]);
                    assert(!old_r.contains(j as usize)) by {
                        if old_r.contains(j as usize) {
                            let q = choose|q: int| 0 <= q < old_r.len() && old_r[q] == j as usize;
                            assert(r@[q] == j as usize);
                        }
                    }
                } else {
                    assert(!taken@[j]);
                }
            }
        }
    }
    r
}

/// How many entries of `s` are set.
pub open spec fn count_set(s: Seq<bool>) -> nat
    decreases s.len(),
{
    if s.len() == 0 {
        0
    } else {
        count_set(s.drop_last()) + if s.last() { 1nat } else { 0nat }
    }
}

proof fn lemma_count_set_update(s: Seq<bool>, i: int)
    requires
        0 <= i < s.len(),
        !s[i],
    ensures
        count_set(s.update(i, true)) == count_set(s) + 1,
    decreases s.len(),
{
    let u = s.update(i, true);
    if i == s.len() - 1 {
        assert(u.drop_last() =~= s.drop_last());
    } else {
        assert(u.drop_last() =~= s.drop_last().update(i, true));
        lemma_count_set_update(s.drop_last(), i);
    }
}

proof fn lemma_count_set_all(s: Seq<bool>)
    requires
        forall|j: int| 0 <= j < s.len() ==> s[j],
    ensures
        count_set(s) == s.len(),
    decreases s.len(),
{
    if s.len() > 0 {
        lemma_count_set_all(s.drop_last());
    }
}

proof fn lemma_count_set_none(s: Seq<bool>)
    requires
        forall|j: int| 0 <= j < s.len() ==> !s[j],
    ensures
        count_set(s) == 0,
    decreases s.len(),
{
    if s.len() > 0 {
        lemma_count_set_none(s.drop_last());
    }
}

/// Copies of the first `count` items of `items` after a random shuffle: `min(count, len)`
/// distinct items of `items`, in an order left to chance.
pub fn random_first<T: Copy>(items: &Vec<T>, count: usize) -> (r: Vec<T>)
    ensures
        r@.len() == if count < items@.len() { count as nat } else { items@.len() },
        exists|p: Seq<usize>|
            p.len() == r@.len() && p.no_duplicates() && (forall|k: int| 0 <= k < p.len() ==> #[trigger] p[k] < items@.len()
                && r@[k] == items@[p[k] as int]),
{
    let n = items.len();
    let mut order: Vec<usize> = Vec::new();
    let mut i: usize = 0;
    while i < n
        invariant
            0 <= i <= n,
            order@.len() == i,
            forall|k: int| 0 <= k < i ==> order@[k] == k,
        decreases n - i,
    {
        order.push(i);
        i = i + 1;
    }
    let ghost before = order@;
    let mut rng = thread_rng();
    shuffle(&mut order, &mut rng);
    proof {
        assert(before.no_duplicates());
        before.lemma_multiset_has_no_duplicates();
        order@.to_multiset_ensures();
        before.to_multiset_ensures();
        assert forall|x: usize| order@.to_multiset().contains(x) implies order@.to_multiset().count(x) == 1 by {}
        order@.lemma_multiset_has_no_duplicates_conv();
        assert forall|k: int| 0 <= k < order@.len() implies #[trigger] order@[k] < n by {
            assert(order@.contains(order@[k]));
            assert(before.to_multiset().count(order@[k]) > 0);
            assert(before.contains(order@[k]));
        }
    }
    let limit = if count < n { count } else { n };
    let mut r: Vec<T> = Vec::new();
    let mut k: usize = 0;
    while k < limit
        invariant
            limit <= n,
            n == items@.len(),
            order@.len() == n,
            order@.no_duplicates(),
            forall|q: int| 0 <= q < order@.len() ==> #[trigger] order@[q] < n,
            0 <= k <= limit,
            r@.len() == k,
            forall|q: int| 0 <= q < k ==> #[trigger] r@[q] == items@[order@[q] as int],
        decreases limit - k,
    {
        r.push(items[order[k]]);
        k = k + 1;
    }
    proof {
        let p = order@.subrange(0, limit as int);
        assert(p.len() == r@.len() && p.no_duplicates() && (forall|q: int| 0 <= q < p.len() ==> #[trigger] p[q] < items@.len()
            && r@[q] == items@[p[q] as int]));
    }
    r
}

/// Indices of `min(count, len)` distinct items among `len`, drawn at random.
pub fn random_indices(len: usize, count: usize) -> (r: Vec<usize>)
    ensures
        r@.len() == if count < len { count } else { len },
        r@.no_duplicates(),
        forall|k: int| 0 <= k < r@.len() ==> #[trigger] r@[k] < len,
{
    let mut rng = thread_rng();
    choose_indices(len, count, &mut rng)
}

/// `s` sorts every index by `created`, newest first, and `t` then takes the first `count` of
/// them by `play_counts`, most played first, keeping the order of `s` among equal counts.
pub open spec fn ranked_twice(
    created: Seq<(i64, i64)>,
    play_counts: Seq<(i64, i64)>,
    count: nat,
    s: Seq<usize>,
    t: Seq<usize>,
) -> bool {
    &&& first_by_order(created, created.len(), true, s)
    &&& first_by_order(s.map_values(|i: usize| play_counts[i as int]), count, true, t)
}

/// The dashboard's two lists of albums, as indices: the `count` most recently created
/// (newest first), and the `count` most played, where albums played equally often come in
/// the order of the first list's full sort, newest first.
pub fn dashboard_albums(created: &Vec<(i64, i64)>, play_counts: &Vec<(i64, i64)>, count: usize) -> (r: (Vec<usize>, Vec<usize>))
    requires
        created@.len() == play_counts@.len(),
    ensures
        first_by_order(created@, count as nat, true, r.0@),
        exists|s: Seq<usize>, t: Seq<usize>|
            #[trigger] ranked_twice(created@, play_counts@, count as nat, s, t) && r.1@ == t.map_values(
                |k: usize| s[k as int],
            ),
{
    let n = created.len();
    let recent = first_indices_by_key(created, count, true);
    let all = first_indices_by_key(created, n, true);
    let mut keys: Vec<(i64, i64)> = Vec::new();
    let mut i: usize = 0;
    while i < n
        invariant
            0 <= i <= n,
            n == created@.len(),
            n == play_counts@.len(),
            first_by_order(created@, n as nat, true, all@),
            all@.len() == n,
            keys@ == all@.take(i as int).map_values(|j: usize| play_counts@[j as int]),
        decreases n - i,
    {
        let j = all[i];
        proof {
            assert(all@[i as int] < created@.len());
        }
        keys.push(play_counts[j]);
        proof {
            assert(all@.take(i + 1) =~= all@.take(i as int).push(j));
            assert(all@.take(i + 1).map_values(|j: usize| play_counts@[j as int]) =~= all@.take(i as int).map_values(
                |j: usize| play_counts@[j as int],
            ).push(play_counts@[j as int]));
        }
        i = i + 1;
    }
    proof {
        assert(all@.take(n as int) =~= all@);
    }
    let top = first_indices_by_key(&keys, count, true);
    let mut most: Vec<usize> = Vec::new();
    let mut k: usize = 0;
    while k < top.len()
        invariant
            0 <= k <= top@.len(),
            first_by_order(keys@, count as nat, true, top@),
            keys@.len() == all@.len(),
            most@ == top@.take(k as int).map_values(|q: usize| all@[q as int]),
        decreases top@.len() - k,
    {
        let q = top[k];
        proof {
            assert(top@[k as int] < keys@.len());
        }
        most.push(all[q]);
        proof {
            assert(top@.take(k + 1) =~= top@.take(k as int).push(q));
            assert(top@.take(k + 1).map_values(|q: usize| all@[q as int]) =~= top@.take(k as int).map_values(
                |q: usize| all@[q as int],
            ).push(all@[q as int]));
        }
        k = k + 1;
    }
    proof {
        assert(top@.take(top@.len() as int) =~= top@);
        assert(ranked_twice(created@, play_counts@, count as nat, all@, top@));
    }
    (recent, most)
}

/// The play count at index `a`.
pub open spec fn count_at(keys: Seq<i64>, a: usize) -> i64 {
    keys[a as int]
}

/// The indices of the songs that have a play count, in order.
pub open spec fn played_indices(pc: Seq<Option<i64>>) -> Seq<usize>
    decreases pc.len(),
{
    if pc.len() == 0 {
        Seq::empty()
    } else {
        let front = played_indices(pc.drop_last());
        match pc.last() {
            Some(_) => front.push((pc.len() - 1) as usize),
            None => front,
        }
    }
}

/// The play counts of the songs that have one, in order.
pub open spec fn play_count_keys(pc: Seq<Option<i64>>) -> Seq<i64>
    decreases pc.len(),
{
    if pc.len() == 0 {
        Seq::empty()
    } else {
        let front = play_count_keys(pc.drop_last());
        match pc.last() {
            Some(c) => front.push(c),
            None => front,
        }
    }
}

/// `r` lists every index of `keys` once, by ascending count, indices with equal counts in
/// their order: what a stable sort by count gives.
pub open spec fn by_count(keys: Seq<i64>, r: Seq<usize>) -> bool {
    &&& r.len() == keys.len()
    &&& r.no_duplicates()
    &&& forall|k: int| 0 <= k < r.len() ==> #[trigger] r[k] < keys.len()
    &&& forall|k: int, m: int|
        0 <= k < m < r.len() ==> count_at(keys, r[k]) < count_at(keys, r[m]) || (count_at(keys, r[k])
            == count_at(keys, r[m]) && r[k] < r[m])
}

/// The indices of the songs that have a play count, and their counts.
pub fn played_with_counts(pc: &Vec<Option<i64>>) -> (r: (Vec<usize>, Vec<i64>))
    ensures
        r.0@ == played_indices(pc@),
        r.1@ == play_count_keys(pc@),
        r.0@.len() == r.1@.len(),
{
    let mut idx: Vec<usize> = Vec::new();
    let mut keys: Vec<i64> = Vec::new();
    let mut i: usize = 0;
    while i < pc.len()
        invariant
            0 <= i <= pc@.len(),
            idx@ == played_indices(pc@.take(i as int)),
            keys@ == play_count_keys(pc@.take(i as int)),
            idx@.len() == keys@.len(),
        decreases pc@.len() - i,
    {
        proof {
            assert(pc@.take(i + 1).drop_last() =~= pc@.take(i as int));
        }
        match pc[i] {
            Some(c) => {
                idx.push(i);
                keys.push(c);
            },
            None => {},
        }
        i = i + 1;
    }
    proof {
        assert(pc@.take(pc@.len() as int) =~= pc@);
    }
    (idx, keys)
}

} // verus!
