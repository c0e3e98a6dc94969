//! What the list views count of what they show: the shown tracks, and the distinct artists
//! and albums among them.
use vstd::prelude::*;
use vstd::string::*;
use crate::text::str_eq;
use crate::info::update_count_labels;

verus! {

broadcast use vstd::seq_lib::group_seq_properties;

/// An optional name, as a value.
pub open spec fn name_view(n: Option<String>) -> Option<Seq<char>> {
    match n {
        Some(s) => Some(s@),
        None => None,
    }
}

/// A set of optional names (an artist or an album may be unknown), each kept once.
#[derive(Debug)]
pub struct ShownNames {
    names: Vec<Option<String>>,
}

/// Whether two optional names are the same.
fn same_name(a: &Option<String>, b: &Option<String>) -> (r: bool)
    ensures
        r == (name_view(*a) == name_view(*b)),
{
    match (a, b) {
        (Some(x), Some(y)) => str_eq(x.as_str(), y.as_str()),
        (None, None) => true,
        _ => false,
    }
}

impl ShownNames {
    /// The names held, in the order they came.
    pub closed spec fn seq(&self) -> Seq<Option<Seq<char>>> {
        self.names@.map_values(|n: Option<String>| name_view(n))
    }

    /// The set of names held.
    pub closed spec fn view_set(&self) -> Set<Option<Seq<char>>> {
        self.seq().to_set()
    }

    /// No name is held twice.
    pub closed spec fn wf(&self) -> bool {
        self.seq().no_duplicates()
    }

    /// No names.
    pub fn new() -> (r: ShownNames)
        ensures
            r.wf(),
            r.view_set() == Set::<Option<Seq<char>>>::empty(),
    {
        let r = ShownNames { names: Vec::new() };
        proof {
            assert(r.seq() =~= Seq::<Option<Seq<char>>>::empty());
            assert(r.view_set() =~= Set::<Option<Seq<char>>>::empty());
        }
        r
    }

    /// Whether `name` is held.
    pub fn contains(&self, name: &Option<String>) -> (r: bool)
        ensures
            r == self.view_set().contains(name_view(*name)),
    {
        let mut i: usize = 0;
        while i < self.names.len()
            invariant
                0 <= i <= self.names@.len(),
                forall|j: int| 0 <= j < i ==> self.seq()[j] != name_view(*name),
            decreases self.names@.len() - i,
        {
            if same_name(&self.names[i], name) {
                proof {
                    assert(self.seq()[i as int] == name_view(*name));
                }
                return true;
            }
            i = i + 1;
        }
        false
    }

    /// Adds `name`, unless it is held already.
    pub fn insert(&mut self, name: Option<String>)
        requires
            old(self).wf(),
        ensures
            final(self).wf(),
            final(self).view_set() == old(self).view_set().insert(name_view(name)),
    {
        if !self.contains(&name) {
            let ghost before = self.seq();
            let ghost v = name_view(name);
            self.names.push(name);
            proof {
                assert(self.seq() =~= before.push(v));
                before.lemma_push_to_set_commute(v);
            }
        } else {
            proof {
                assert(self.view_set().insert(name_view(name)) =~= self.view_set());
            }
        }
    }

    /// The distinct names among the names `visible` (the artists view counts its visible
    /// artists so).
    pub fn from_names(visible: &Vec<String>) -> (r: ShownNames)
        ensures
            r.wf(),
            r.view_set() == visible@.map_values(|s: String| Some(s@)).to_set(),
    {
        let ghost all = visible@.map_values(|s: String| Some(s@));
        let mut r = ShownNames::new();
        let mut i: usize = 0;
        while i < visible.len()
            invariant
                0 <= i <= visible@.len(),
                all == visible@.map_values(|s: String| Some(s@)),
                r.wf(),
                r.view_set() == all.subrange(0, i as int).to_set(),
            decreases visible@.len() - i,
        {
            proof {
                assert(all.subrange(0, i + 1) =~= all.subrange(0, i as int).push(all[i as int]));
                all.subrange(0, i as int).lemma_push_to_set_commute(all[i as int]);
            }
            r.insert(Some(visible[i].clone()));
            i = i + 1;
        }
        proof {
            assert(all.subrange(0, i as int) =~= all);
        }
        r
    }

    /// The number of names held.
    pub fn len(&self) -> (r: usize)
        requires
            self.wf(),
        ensures
            r == self.view_set().len(),
    {
        proof {
            self.seq().unique_seq_to_set();
        }
        self.names.len()
    }
}

/// A shown track as the counts read it: its name, artist and album.
#[derive(Debug)]
pub struct ShownTrack {
    pub name: String,
    pub artist: Option<String>,
    pub album: Option<String>,
}

/// What a list view counts of what it shows: the names of the shown tracks, in order, and the
/// distinct artists and albums among them.
#[derive(Debug)]
pub struct ShownInfo {
    pub tracks: Vec<String>,
    pub artists: ShownNames,
    pub albums: ShownNames,
}

/// The artists of the tracks `shown`.
pub open spec fn artists_of(shown: Seq<ShownTrack>) -> Set<Option<Seq<char>>> {
    shown.map_values(|t: ShownTrack| name_view(t.artist)).to_set()
}

/// The albums of the tracks `shown`.
pub open spec fn albums_of(shown: Seq<ShownTrack>) -> Set<Option<Seq<char>>> {
    shown.map_values(|t: ShownTrack| name_view(t.album)).to_set()
}

impl ShownInfo {
    /// The counts of the tracks `shown`.
    pub fn recalc(shown: Vec<ShownTrack>) -> (r: ShownInfo)
        ensures
            r.artists.wf(),
            r.albums.wf(),
            r.tracks@.map_values(|s: String| s@) == shown@.map_values(|t: ShownTrack| t.name@),
            r.artists.view_set() == artists_of(shown@),
            r.albums.view_set() == albums_of(shown@),
    {
        let ghost all = shown@;
        let mut shown = shown;
        let mut tracks: Vec<String> = Vec::new();
        let mut artists = ShownNames::new();
        let mut albums = ShownNames::new();
        let n = shown.len();
        let mut i: usize = 0;
        while i < n
            invariant
                0 <= i <= n,
                n == all.len(),
                shown@ == all.subrange(i as int, n as int),
                artists.wf(),
                albums.wf(),
                tracks@.map_values(|s: String| s@) == all.subrange(0, i as int).map_values(|t: ShownTrack| t.name@),
                artists.view_set() == artists_of(all.subrange(0, i as int)),
                albums.view_set() == albums_of(all.subrange(0, i as int)),
            decreases n - i,
        {
            let t = shown.remove(0);
            let ghost s0 = all.subrange(0, i as int);
            proof {
                assert(t == all[i as int]);
                assert(all.subrange(0, i + 1) =~= s0.push(t));
                assert(s0.push(t).map_values(|t: ShownTrack| name_view(t.artist)) =~= s0.map_values(
                    |t: ShownTrack| name_view(t.artist),
                ).push(name_view(t.artist)));
                assert(s0.push(t).map_values(|t: ShownTrack| name_view(t.album)) =~= s0.map_values(
                    |t: ShownTrack| name_view(t.album),
                ).push(name_view(t.album)));
                s0.map_values(|t: ShownTrack| name_view(t.artist)).lemma_push_to_set_commute(name_view(t.artist));
                s0.map_values(|t: ShownTrack| name_view(t.album)).lemma_push_to_set_commute(name_view(t.album));
            }
            let ghost before = tracks@;
            artists.insert(t.artist);
            albums.insert(t.album);
            tracks.push(t.name);
            proof {
                assert(tracks@.map_values(|s: String| s@) =~= before.map_values(|s: String| s@).push(t.name@));
                assert(s0.push(t).map_values(|t: ShownTrack| t.name@) =~= s0.map_values(|t: ShownTrack| t.name@).push(
                    t.name@,
                ));
            }
            i = i + 1;
        }
        proof {
            assert(all.subrange(0, n as int) =~= all);
        }
        ShownInfo { tracks, artists, albums }
    }

    /// The three count labels of the view from their translated words: shown tracks, then the
    /// label of the artists, which counts the albums, then the label of the albums, which
    /// counts the artists.
    pub fn count_labels_with(&self, tracks_word: &str, artists_word: &str, albums_word: &str) -> (r: (String, String, String))
        requires
            self.artists.wf(),
            self.albums.wf(),
        ensures
            r.0@ == crate::info::count_label(tracks_word@, self.tracks@.len()),
            r.1@ == crate::info::count_label(artists_word@, self.albums.view_set().len()),
            r.2@ == crate::info::count_label(albums_word@, self.artists.view_set().len()),
    {
        let t = self.tracks.len();
        let al = self.albums.len();
        let ar = self.artists.len();
        crate::info::update_count_labels_with(tracks_word, artists_word, albums_word, t, al, ar)
    }

    /// The three count labels of the view: shown tracks, then the label of the artists, which
    /// counts the albums, then the label of the albums, which counts the artists.
    pub fn count_labels(&self) -> (r: (String, String, String))
        requires
            self.artists.wf(),
            self.albums.wf(),
        ensures
            exists|a: Seq<char>, b: Seq<char>, c: Seq<char>|
                r.0@ == crate::info::count_label(a, self.tracks@.len()) && r.1@ == crate::info::count_label(
                    b,
                    self.albums.view_set().len(),
                ) && r.2@ == crate::info::count_label(c, self.artists.view_set().len()),
    {
        let t = self.tracks.len();
        let al = self.albums.len();
        let ar = self.artists.len();
        update_count_labels(t, al, ar)
    }
}

/// A view never counts more artists or albums than it shows tracks.
pub proof fn law_counts_bounded(shown: Seq<ShownTrack>)
    ensures
        artists_of(shown).len() <= shown.len(),
        albums_of(shown).len() <= shown.len(),
{
    shown.map_values(|t: ShownTrack| name_view(t.artist)).lemma_cardinality_of_set();
    shown.map_values(|t: ShownTrack| name_view(t.album)).lemma_cardinality_of_set();
}

} // verus!
