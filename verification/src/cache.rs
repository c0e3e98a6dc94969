//! The cache of cover images, by cover id.
use vstd::prelude::*;

verus! {

/// Cover images by cover id; each id occurs once.
pub struct Cache {
    covers: Vec<(String, Vec<u8>)>,
}

/// The ids of `covers` are distinct.
pub open spec fn distinct_ids(covers: Seq<(String, Vec<u8>)>) -> bool {
    forall|i: int, j: int| 0 <= i < covers.len() && 0 <= j < covers.len() && i != j ==> (#[trigger] covers[i]).0@ != (#[trigger] covers[j]).0@
}

/// The image stored for `id` in `covers`.
pub open spec fn lookup(covers: Seq<(String, Vec<u8>)>, id: Seq<char>) -> Option<Seq<u8>> {
    if exists|i: int| 0 <= i < covers.len() && covers[i].0@ == id {
        Some(covers[choose|i: int| 0 <= i < covers.len() && covers[i].0@ == id].1@)
    } else {
        None
    }
}

proof fn lemma_lookup_at(covers: Seq<(String, Vec<u8>)>, id: Seq<char>, i: int)
    requires
        distinct_ids(covers),
        0 <= i < covers.len(),
        covers[i].0@ == id,
    ensures
        lookup(covers, id) == Some(covers[i].1@),
{
    let c = choose|c: int| 0 <= c < covers.len() && covers[c].0@ == id;
    assert(c == i);
}

impl Cache {
    /// The image stored for each id.
    pub closed spec fn covers(&self, id: Seq<char>) -> Option<Seq<u8>> {
        lookup(self.covers@, id)
    }

    /// Each id is stored once.
    pub closed spec fn wf(&self) -> bool {
        distinct_ids(self.covers@)
    }

    /// An empty cache.
    pub fn new() -> (r: Cache)
        ensures
            r.wf(),
            forall|id: Seq<char>| r.covers(id) is None,
    {
        Cache { covers: Vec::new() }
    }

    fn find(&self, id: &str) -> (r: Option<usize>)
        requires
            self.wf(),
        ensures
            r matches Some(i) ==> i < self.covers@.len() && self.covers@[i as int].0@ == id@,
            r is None ==> forall|i: int| 0 <= i < self.covers@.len() ==> (#[trigger] self.covers@[i]).0@ != id@,
    {
        let mut i: usize = 0;
        while i < self.covers.len()
            invariant
                0 <= i <= self.covers@.len(),
                forall|j: int| 0 <= j < i ==> (#[trigger] self.covers@[j]).0@ != id@,
            decreases self.covers@.len() - i,
        {
            if crate::text::str_eq(self.covers[i].0.as_str(), id) {
                return Some(i);
            }
            i = i + 1;
        }
        None
    }

    /// A copy of the image stored for `id`.
    pub fn cover(&self, id: &str) -> (r: Option<Vec<u8>>)
        requires
            self.wf(),
        ensures
            r is None <==> self.covers(id@) is None,
            r matches Some(b) ==> self.covers(id@) == Some(b@),
    {
        match self.find(id) {
            Some(i) => {
                proof {
                    lemma_lookup_at(self.covers@, id@, i as int);
                }
                Some(copy_bytes(&self.covers[i].1))
            },
            None => None,
        }
    }

    /// Stores `buffer` for `id`, in place of what was stored for it; returns a copy of it.
    pub fn insert(&mut self, id: String, buffer: Vec<u8>) -> (r: Vec<u8>)
        requires
            old(self).wf(),
        ensures
            final(self).wf(),
            r@ == buffer@,
            final(self).covers(id@) == Some(buffer@),
            forall|other: Seq<char>| other != id@ ==> #[trigger] final(self).covers(other) == old(self).covers(other),
    {
        let copy = copy_bytes(&buffer);
        let ghost before = self.covers@;
        let ghost key = id@;
        match self.find(id.as_str()) {
            Some(i) => {
                self.covers.set(i, (id, buffer));
                proof {
                    assert(distinct_ids(self.covers@)) by {
                        assert forall|a: int, b: int| 0 <= a < self.covers@.len() && 0 <= b < self.covers@.len() && a != b
                            implies (#[trigger] self.covers@[a]).0@ != (#[trigger] self.covers@[b]).0@ by {
                            if a != i as int && b != i as int {
                                assert(before[a].0@ != before[b].0@);
                            } else if a == i as int {
                                assert(before[b].0@ != before[i as int].0@);
                            } else {
                                assert(before[a].0@ != before[i as int].0@);
                            }
                        }
                    }
                    lemma_lookup_at(self.covers@, key, i as int);
                    assert forall|other: Seq<char>| other != key implies #[trigger] lookup(self.covers@, other) == lookup(before, other) by {
                        if exists|j: int| 0 <= j < before.len() && before[j].0@ == other {
                            let j = choose|j: int| 0 <= j < before.len() && before[j].0@ == other;
                            lemma_lookup_at(before, other, j);
                            assert(j != i as int);
                            lemma_lookup_at(self.covers@, other, j);
                        } else {
                            assert forall|j: int| 0 <= j < self.covers@.len() implies self.covers@[j].0@ != other by {
                                if j != i as int {
                                    assert(self.covers@[j] == before[j]);
                                }
                            }
                        }
                    }
                }
            },
            None => {
                self.covers.push((id, buffer));
                proof {
                    let n = before.len() as int;
                    assert(distinct_ids(self.covers@)) by {
                        assert forall|a: int, b: int| 0 <= a < self.covers@.len() && 0 <= b < self.covers@.len() && a != b
                            implies (#[trigger] self.covers@[a]).0@ != (#[trigger] self.covers@[b]).0@ by {
                            if a < n && b < n {
                                assert(before[a].0@ != before[b].0@);
                            } else if a == n {
                                assert(self.covers@[b] == before[b]);
                            } else {
                                assert(self.covers@[a] == before[a]);
                            }
                        }
                    }
                    lemma_lookup_at(self.covers@, key, n);
                    assert forall|other: Seq<char>| other != key implies #[trigger] lookup(self.covers@, other) == lookup(before, other) by {
                        if exists|j: int| 0 <= j < before.len() && before[j].0@ == other {
                            let j = choose|j: int| 0 <= j < before.len() && before[j].0@ == other;
                            lemma_lookup_at(before, other, j);
                            assert(self.covers@[j] == before[j]);
                            lemma_lookup_at(self.covers@, other, j);
                        } else {
                            assert forall|j: int| 0 <= j < self.covers@.len() implies self.covers@[j].0@ != other by {
                                if j < n {
                                    assert(self.covers@[j] == before[j]);
                                }
                            }
                        }
                    }
                }
            },
        }
        copy
    }

    /// Copies of the stored ids and images, to save them.
    pub fn entries(&self) -> (r: Vec<(String, Vec<u8>)>)
        requires
            self.wf(),
        ensures
            distinct_ids(r@),
            forall|id: Seq<char>| #[trigger] lookup(r@, id) == self.covers(id),
    {
        let mut r: Vec<(String, Vec<u8>)> = Vec::new();
        let mut i: usize = 0;
        while i < self.covers.len()
            invariant
                0 <= i <= self.covers@.len(),
                r@.len() == i,
                forall|k: int| 0 <= k < i ==> (#[trigger] r@[k]).0@ == self.covers@[k].0@ && r@[k].1@ == self.covers@[k].1@,
            decreases self.covers@.len() - i,
        {
            let id = self.covers[i].0.clone();
            let bytes = copy_bytes(&self.covers[i].1);
            r.push((id, bytes));
            i = i + 1;
        }
        proof {
            lemma_same_entries(r@, self.covers@);
        }
        r
    }

    /// The stored ids and images, to save them.
    pub fn into_entries(self) -> (r: Vec<(String, Vec<u8>)>)
        requires
            self.wf(),
        ensures
            distinct_ids(r@),
            forall|id: Seq<char>| #[trigger] lookup(r@, id) == self.covers(id),
    {
        self.covers
    }

    /// A cache holding `entries`; an id that occurs twice keeps its last image.
    pub fn from_entries(entries: Vec<(String, Vec<u8>)>) -> (r: Cache)
        ensures
            r.wf(),
            forall|id: Seq<char>| #[trigger] r.covers(id) == last_image(entries@, id),
    {
        let ghost all = entries@;
        let mut c = Cache::new();
        let mut entries = entries;
        let n = entries.len();
        let mut i: usize = 0;
        while i < n
            invariant
                c.wf(),
                0 <= i <= n,
                n == all.len(),
                entries@ == all.subrange(i as int, n as int),
                forall|id: Seq<char>| #[trigger] c.covers(id) == last_image(all.subrange(0, i as int), id),
            decreases n - i,
        {
            let (id, buffer) = entries.remove(0);
            proof {
                assert(all.subrange(0, i + 1).drop_last() =~= all.subrange(0, i as int));
                assert(all.subrange(0, i + 1).last() == all[i as int]);
                assert(all[i as int] == (id, buffer));
            }
            c.insert(id, buffer);
            i = i + 1;
        }
        proof {
            assert(all.subrange(0, n as int) =~= all);
        }
        c
    }
}

/// The image that the last entry for `id` in `entries` carries, if any entry has that id.
pub open spec fn last_image(entries: Seq<(String, Vec<u8>)>, id: Seq<char>) -> Option<Seq<u8>>
    decreases entries.len(),
{
    if entries.len() == 0 {
        None
    } else if entries.last().0@ == id {
        Some(entries.last().1@)
    } else {
        last_image(entries.drop_last(), id)
    }
}

/// Entries with the same ids and images, in the same order, look up alike.
proof fn lemma_same_entries(a: Seq<(String, Vec<u8>)>, b: Seq<(String, Vec<u8>)>)
    requires
        distinct_ids(b),
        a.len() == b.len(),
        forall|k: int| 0 <= k < a.len() ==> (#[trigger] a[k]).0@ == b[k].0@ && a[k].1@ == b[k].1@,
    ensures
        distinct_ids(a),
        forall|id: Seq<char>| #[trigger] lookup(a, id) == lookup(b, id),
{
    assert forall|i: int, j: int| 0 <= i < a.len() && 0 <= j < a.len() && i != j implies (#[trigger] a[i]).0@ != (#[trigger] a[j]).0@ by {
        assert(b[i].0@ != b[j].0@);
    }
    assert forall|id: Seq<char>| #[trigger] lookup(a, id) == lookup(b, id) by {
        if exists|i: int| 0 <= i < b.len() && b[i].0@ == id {
            let i = choose|i: int| 0 <= i < b.len() && b[i].0@ == id;
            lemma_lookup_at(b, id, i);
            lemma_lookup_at(a, id, i);
        } else {
            assert forall|i: int| 0 <= i < a.len() implies a[i].0@ != id by {
                assert(a[i].0@ == b[i].0@);
            }
        }
    }
}

/// A copy of a byte buffer.
fn copy_bytes(b: &Vec<u8>) -> (r: Vec<u8>)
    ensures
        r@ == b@,
{
    let mut r: Vec<u8> = Vec::new();
    let mut i: usize = 0;
    while i < b.len()
        invariant
            0 <= i <= b@.len(),
            r@ == b@.subrange(0, i as int),
        decreases b@.len() - i,
    {
        r.push(b[i]);
        proof {
            assert(r@ =~= b@.subrange(0, i + 1));
        }
        i = i + 1;
    }
    proof {
        assert(b@.subrange(0, b@.len() as int) =~= b@);
    }
    r
}

/// What the cache gives back for an id is the last image stored for it.
pub proof fn law_cover_after_insert(before: Cache, after: Cache, id: Seq<char>, buffer: Seq<u8>, other: Seq<char>)
    requires
        after.covers(id) == Some(buffer),
        forall|o: Seq<char>| o != id ==> #[trigger] after.covers(o) == before.covers(o),
    ensures
        other == id ==> after.covers(other) == Some(buffer),
        other != id ==> after.covers(other) == before.covers(other),
{
}

} // verus!
