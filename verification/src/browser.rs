//! The navigation history of the browser and the plan by which long playlists are created.
use vstd::prelude::*;

verus! {

broadcast use vstd::seq_lib::group_seq_properties;

/// The kinds of pages the browser shows.
#[derive(Debug, Clone, Copy, PartialEq, Eq, Structural)]
pub enum ViewKind {
    Dashboard,
    Artists,
    Artist,
    Albums,
    Album,
    Tracks,
    Playlists,
}

/// What a navigation step reports: the page now shown, if it changed, and the new sensitivity
/// of the back button, if it is to be set.
#[derive(Debug, Clone, Copy, PartialEq, Eq, Structural)]
pub struct Navigation {
    pub changed_to: Option<ViewKind>,
    pub back_sensitive: Option<bool>,
}

/// The pages visited, most recent last, and how many artist, album and playlist pages are
/// kept open (the other kinds of pages exist once).
pub struct History {
    views: Vec<ViewKind>,
    artist_views: usize,
    album_views: usize,
    playlists_views: usize,
}

/// How often `kind` occurs in `views`.
pub open spec fn count_kind(views: Seq<ViewKind>, kind: ViewKind) -> nat
    decreases views.len(),
{
    if views.len() == 0 {
        0
    } else {
        count_kind(views.drop_last(), kind) + if views.last() == kind { 1nat } else { 0nat }
    }
}

proof fn lemma_count_push(views: Seq<ViewKind>, v: ViewKind, kind: ViewKind)
    ensures
        count_kind(views.push(v), kind) == count_kind(views, kind) + if v == kind { 1nat } else { 0nat },
{
    assert(views.push(v).drop_last() =~= views);
}

proof fn lemma_count_bound(views: Seq<ViewKind>, kind: ViewKind)
    ensures
        count_kind(views, kind) <= views.len(),
    decreases views.len(),
{
    if views.len() > 0 {
        lemma_count_bound(views.drop_last(), kind);
    }
}

/// The history after a page of the kind `kind` is shown: unchanged when the page shown is of
/// that kind already and the kind is neither an artist nor an album page, one page longer
/// otherwise.
pub open spec fn after_show(views: Seq<ViewKind>, kind: ViewKind) -> Seq<ViewKind> {
    if kind != ViewKind::Artist && kind != ViewKind::Album && views.len() > 0 && views.last() == kind {
        views
    } else {
        views.push(kind)
    }
}

impl History {
    /// The pages visited, most recent last.
    pub closed spec fn views(&self) -> Seq<ViewKind> {
        self.views@
    }

    /// Open artist pages, album pages and playlist pages.
    pub closed spec fn open_pages(&self) -> (nat, nat, nat) {
        (self.artist_views as nat, self.album_views as nat, self.playlists_views as nat)
    }

    /// One open page for each artist, album and playlist page in the history.
    pub closed spec fn wf(&self) -> bool {
        &&& self.artist_views == count_kind(self.views@, ViewKind::Artist)
        &&& self.album_views == count_kind(self.views@, ViewKind::Album)
        &&& self.playlists_views == count_kind(self.views@, ViewKind::Playlists)
    }

    /// An empty history.
    pub fn new() -> (r: History)
        ensures
            r.wf(),
            r.views().len() == 0,
    {
        History { views: Vec::new(), artist_views: 0, album_views: 0, playlists_views: 0 }
    }

    /// The page shown.
    pub fn current(&self) -> (r: Option<ViewKind>)
        ensures
            self.views().len() == 0 ==> r is None,
            self.views().len() > 0 ==> r == Some(self.views().last()),
    {
        if self.views.len() == 0 {
            None
        } else {
            Some(self.views[self.views.len() - 1])
        }
    }

    /// Whether there is a page to go back to.
    pub fn can_go_back(&self) -> (r: bool)
        ensures
            r == (self.views().len() > 1),
    {
        self.views.len() > 1
    }

    /// Goes back one page when there is one to go back to, closing the page left when it was
    /// an artist, album or playlist page. The back button is made insensitive when one page is
    /// left.
    pub fn go_back(&mut self) -> (r: Navigation)
        requires
            old(self).wf(),
        ensures
            final(self).wf(),
            old(self).views().len() > 1 ==> final(self).views() == old(self).views().drop_last()
                && r.changed_to == Some(final(self).views().last()),
            old(self).views().len() <= 1 ==> final(self).views() == old(self).views() && r.changed_to is None,
            r.back_sensitive == if final(self).views().len() == 1 { Some(false) } else { None },
    {
        let mut changed_to = None;
        if self.views.len() > 1 {
            let ghost before = self.views@;
            let popped = self.views.pop().unwrap();
            proof {
                assert(before == self.views@.push(popped));
                lemma_count_push(self.views@, popped, ViewKind::Artist);
                lemma_count_push(self.views@, popped, ViewKind::Album);
                lemma_count_push(self.views@, popped, ViewKind::Playlists);
            }
            match popped {
                ViewKind::Artist => self.artist_views = self.artist_views - 1,
                ViewKind::Album => self.album_views = self.album_views - 1,
                ViewKind::Playlists => self.playlists_views = self.playlists_views - 1,
                _ => {},
            }
            changed_to = Some(self.views[self.views.len() - 1]);
        }
        let back_sensitive = if self.views.len() == 1 { Some(false) } else { None };
        Navigation { changed_to, back_sensitive }
    }

    fn push(&mut self, kind: ViewKind)
        requires
            old(self).wf(),
            old(self).views().len() < usize::MAX,
        ensures
            final(self).wf(),
            final(self).views() == old(self).views().push(kind),
    {
        proof {
            lemma_count_push(self.views@, kind, ViewKind::Artist);
            lemma_count_push(self.views@, kind, ViewKind::Album);
            lemma_count_push(self.views@, kind, ViewKind::Playlists);
            lemma_count_bound(self.views@, ViewKind::Artist);
            lemma_count_bound(self.views@, ViewKind::Album);
            lemma_count_bound(self.views@, ViewKind::Playlists);
        }
        match kind {
            ViewKind::Artist => self.artist_views = self.artist_views + 1,
            ViewKind::Album => self.album_views = self.album_views + 1,
            ViewKind::Playlists => self.playlists_views = self.playlists_views + 1,
            _ => {},
        }
        self.views.push(kind);
    }

    /// Shows a page of the kind `kind`. The dashboard, the artists, albums, tracks and
    /// playlists pages are not shown twice in a row: nothing happens when the page shown is of
    /// that kind already. Artist and album pages are always opened anew. A page shown makes
    /// the back button sensitive.
    pub fn show(&mut self, kind: ViewKind) -> (r: Navigation)
        requires
            old(self).wf(),
            old(self).views().len() < usize::MAX,
        ensures
            final(self).wf(),
            final(self).views() == after_show(old(self).views(), kind),
            ({
                let repeated = kind != ViewKind::Artist && kind != ViewKind::Album && old(self).views().len() > 0
                    && old(self).views().last() == kind;
                &&& repeated ==> final(self).views() == old(self).views() && r == (Navigation { changed_to: None, back_sensitive: None })
                &&& !repeated ==> final(self).views() == old(self).views().push(kind) && r == (Navigation {
                    changed_to: Some(kind),
                    back_sensitive: Some(true),
                })
            }),
    {
        if kind != ViewKind::Artist && kind != ViewKind::Album && self.views.len() > 0 && self.views[self.views.len() - 1] == kind {
            return Navigation { changed_to: None, back_sensitive: None };
        }
        self.push(kind);
        Navigation { changed_to: Some(kind), back_sensitive: Some(true) }
    }
}

/// Showing a new page and going back returns to the history as it was before.
pub proof fn law_back_undoes_show(before: Seq<ViewKind>, kind: ViewKind)
    requires
        before.len() > 0,
    ensures
        before.push(kind).drop_last() == before,
        before.push(kind).drop_last().last() == before.last(),
{
    assert(before.push(kind).drop_last() =~= before);
}

/// Showing the dashboard, the artists, albums, tracks or playlists page twice in a row has
/// the effect of showing it once: the second time leaves the history as it is.
pub proof fn law_show_twice_is_once(views: Seq<ViewKind>, kind: ViewKind)
    requires
        kind != ViewKind::Artist,
        kind != ViewKind::Album,
    ensures
        after_show(after_show(views, kind), kind) == after_show(views, kind),
{
}

/// Every artist, album and playlist page in the history has its open page: the counts agree
/// with the history after any number of steps, as each step keeps `wf`.
pub proof fn law_open_pages_match(h: History)
    requires
        h.wf(),
    ensures
        h.open_pages() == (
            count_kind(h.views(), ViewKind::Artist),
            count_kind(h.views(), ViewKind::Album),
            count_kind(h.views(), ViewKind::Playlists),
        ),
{
}

/// Size of the batches in which songs are sent when a playlist is created.
pub const PLAYLIST_CHUNK: usize = 100;

/// Concatenation of a list of batches.
pub open spec fn flatten_ids(chunks: Seq<Seq<Seq<char>>>) -> Seq<Seq<char>>
    decreases chunks.len(),
{
    if chunks.len() == 0 {
        Seq::empty()
    } else {
        flatten_ids(chunks.drop_last()) + chunks.last()
    }
}

/// A list cut into batches of `size` items: every batch holds `size` items but the last one,
/// which holds at least one.
pub open spec fn chunked(items: Seq<Seq<char>>, chunks: Seq<Seq<Seq<char>>>, size: nat) -> bool {
    &&& flatten_ids(chunks) == items
    &&& forall|k: int| 0 <= k < chunks.len() ==> 1 <= (#[trigger] chunks[k]).len() <= size
    &&& forall|k: int| 0 <= k < chunks.len() - 1 ==> (#[trigger] chunks[k]).len() == size
}

/// Calls `itertools::Itertools::chunks(size)` on the ids and collects each chunk. Its
/// documentation: the chunks hold `size` items each, the last one fewer when there are not
/// enough; it panics on a size of 0.
#[verifier::external_body]
fn chunks_of(ids: Vec<String>, size: usize) -> (r: Vec<Vec<String>>)
    requires
        size > 0,
    ensures
        chunked(ids@.map_values(|s: String| s@), r@.map_values(|c: Vec<String>| c@.map_values(|s: String| s@)), size as nat),
{
    let chunks = itertools::Itertools::chunks(ids.into_iter(), size);
    let mut r: Vec<Vec<String>> = Vec::new();
    for chunk in &chunks {
        r.push(chunk.collect());
    }
    r
}

/// The ids of a playlist to create, as they go to the server: all at once when there are
/// fewer than `PLAYLIST_CHUNK`, otherwise the first `PLAYLIST_CHUNK` when the playlist is
/// created and the rest appended in batches of `PLAYLIST_CHUNK`.
pub fn playlist_batches(ids: Vec<String>) -> (r: (Vec<String>, Vec<Vec<String>>))
    ensures
        ids@.len() < PLAYLIST_CHUNK ==> r.0@.map_values(|s: String| s@) == ids@.map_values(|s: String| s@) && r.1@.len() == 0,
        ids@.len() >= PLAYLIST_CHUNK ==> {
            &&& r.0@.map_values(|s: String| s@) == ids@.map_values(|s: String| s@).take(PLAYLIST_CHUNK as int)
            &&& chunked(
                ids@.map_values(|s: String| s@).skip(PLAYLIST_CHUNK as int),
                r.1@.map_values(|c: Vec<String>| c@.map_values(|s: String| s@)),
                PLAYLIST_CHUNK as nat,
            )
        },
{
    if ids.len() < PLAYLIST_CHUNK {
        return (ids, Vec::new());
    }
    let mut first = ids;
    let rest = first.split_off(PLAYLIST_CHUNK);
    proof {
        assert(first@.map_values(|s: String| s@) =~= ids@.map_values(|s: String| s@).take(PLAYLIST_CHUNK as int));
        assert(rest@.map_values(|s: String| s@) =~= ids@.map_values(|s: String| s@).skip(PLAYLIST_CHUNK as int));
    }
    let batches = chunks_of(rest, PLAYLIST_CHUNK);
    (first, batches)
}

/// The message shown when the server refused to create a playlist.
pub open spec fn create_failed_message(e: Seq<char>) -> Seq<char> {
    "could not create playlist on server: "@ + e
}

/// The message shown when the server refused to change a playlist.
pub open spec fn update_failed_message(e: Seq<char>) -> Seq<char> {
    "could not update playlist on server: "@ + e
}

/// The message shown when the server refused to delete a playlist.
pub open spec fn delete_failed_message(e: Seq<char>) -> Seq<char> {
    "could not delete playlist from server: "@ + e
}

/// The server's answer to creating a playlist with the first ids: the songs the new playlist
/// holds, or the message to show, after which nothing more is asked and no playlist is added.
pub fn create_answered<T>(answer: Result<Vec<T>, String>) -> (r: Result<Vec<T>, String>)
    ensures
        answer matches Ok(v) ==> (r matches Ok(w) && w@ == v@),
        answer matches Err(e) ==> (r matches Err(m) && m@ == create_failed_message(e@)),
{
    match answer {
        Ok(v) => Ok(v),
        Err(e) => Err(crate::text::prefixed("could not create playlist on server: ", e.as_str())),
    }
}

/// What follows the server's answer to appending one batch to a new playlist.
#[derive(Debug)]
pub enum BatchStep {
    /// The next batch is sent.
    Continue,
    /// No more batches are sent; the message is shown.
    Stop(String),
}

/// The server's answer to appending `batch` to a new playlist: on success the new playlist
/// holds the batch too and the next batch follows; on an error it stays as it was and no
/// more batches are sent.
pub fn batch_answered<T>(kept: &mut Vec<T>, batch: Vec<T>, answer: &Result<(), String>) -> (r: BatchStep)
    ensures
        answer is Ok ==> (r is Continue && final(kept)@ == old(kept)@ + batch@),
        answer matches Err(e) ==> (r matches BatchStep::Stop(m) && m@ == update_failed_message(e@)
            && final(kept)@ == old(kept)@),
{
    match answer {
        Ok(()) => {
            let mut b = batch;
            kept.append(&mut b);
            BatchStep::Continue
        },
        Err(e) => BatchStep::Stop(crate::text::prefixed("could not update playlist on server: ", e.as_str())),
    }
}

/// The items of the batches, one batch after the other.
pub open spec fn concat_batches<T>(batches: Seq<Seq<T>>) -> Seq<T>
    decreases batches.len(),
{
    if batches.len() == 0 {
        Seq::empty()
    } else {
        concat_batches(batches.drop_last()) + batches.last()
    }
}

/// The items of each batch, as sequences.
pub open spec fn batch_views<T>(batches: Seq<Vec<T>>) -> Seq<Seq<T>> {
    batches.map_values(|b: Vec<T>| b@)
}

/// The batches of a new playlist sent in order, `answers[k]` being the server's answer to
/// batch `k`: sending stops at the first batch the server refuses, whose message is
/// returned, and the new playlist holds the songs it was created with followed by exactly the
/// batches sent before it (all of them when none was refused).
pub fn batches_answered<T>(kept: Vec<T>, batches: Vec<Vec<T>>, answers: &Vec<Result<(), String>>) -> (r: (Vec<T>, Option<String>))
    requires
        batches@.len() <= answers@.len(),
    ensures
        r.1 is None <==> forall|k: int| 0 <= k < batches@.len() ==> (#[trigger] answers@[k]) is Ok,
        r.1 is None ==> r.0@ == kept@ + concat_batches(batch_views(batches@)),
        r.1 matches Some(m) ==> exists|f: int| #![trigger answers@[f]] {
            &&& 0 <= f < batches@.len()
            &&& forall|k: int| 0 <= k < f ==> (#[trigger] answers@[k]) is Ok
            &&& answers@[f] matches Err(e) && m@ == update_failed_message(e@)
            &&& r.0@ == kept@ + concat_batches(batch_views(batches@).take(f))
        },
{
    let ghost views = batch_views(batches@);
    let ghost n = batches@.len();
    let mut acc = kept;
    let mut rest = batches;
    let total = answers.len();
    let mut i: usize = 0;
    while rest.len() > 0
        invariant
            views == batch_views(batches@),
            n == batches@.len(),
            n == views.len(),
            total == answers@.len(),
            n <= answers@.len(),
            i + rest@.len() == n,
            forall|k: int| 0 <= k < rest@.len() ==> (#[trigger] rest@[k])@ == views[i + k],
            forall|k: int| 0 <= k < i ==> (#[trigger] answers@[k]) is Ok,
            acc@ == kept@ + concat_batches(views.take(i as int)),
        decreases rest@.len(),
    {
        let ghost before = rest@;
        let batch = rest.remove(0);
        proof {
            assert(batch@ == views[i as int]);
            assert(views.take(i + 1).drop_last() =~= views.take(i as int));
        }
        let step = batch_answered(&mut acc, batch, &answers[i]);
        match step {
            BatchStep::Continue => {
                proof {
                    assert(acc@ =~= kept@ + concat_batches(views.take(i + 1)));
                    assert forall|k: int| 0 <= k < rest@.len() implies (#[trigger] rest@[k])@ == views[i + 1 + k] by {
                        assert(rest@[k] == before[k + 1]);
                    }
                }
                i = i + 1;
            },
            BatchStep::Stop(m) => {
                proof {
                    assert(answers@[i as int] is Err);
                }
                return (acc, Some(m));
            },
        }
    }
    proof {
        assert(views.take(n as int) =~= views);
    }
    (acc, None)
}

proof fn lemma_concat_is_flatten(chunks: Seq<Seq<Seq<char>>>)
    ensures
        concat_batches(chunks) == flatten_ids(chunks),
    decreases chunks.len(),
{
    if chunks.len() > 0 {
        lemma_concat_is_flatten(chunks.drop_last());
    }
}

/// A playlist created from the ids that `playlist_batches` cut, with every batch accepted by
/// the server, holds all the ids, in order.
pub proof fn law_accepted_batches_keep_all(ids: Seq<Seq<char>>, first: Seq<Seq<char>>, chunks: Seq<Seq<Seq<char>>>)
    requires
        ids.len() >= PLAYLIST_CHUNK ==> first == ids.take(PLAYLIST_CHUNK as int)
            && chunked(ids.skip(PLAYLIST_CHUNK as int), chunks, PLAYLIST_CHUNK as nat),
        ids.len() < PLAYLIST_CHUNK ==> first == ids && chunks.len() == 0,
    ensures
        first + concat_batches(chunks) == ids,
{
    lemma_concat_is_flatten(chunks);
    if ids.len() >= PLAYLIST_CHUNK {
        assert(ids.take(PLAYLIST_CHUNK as int) + ids.skip(PLAYLIST_CHUNK as int) =~= ids);
    } else {
        assert(first + concat_batches(chunks) =~= ids);
    }
}

/// The server's answer to renaming a playlist: none on success (the name changes here too),
/// the message to show on an error (nothing changes).
pub fn rename_answered(answer: &Result<(), String>) -> (r: Option<String>)
    ensures
        answer is Ok ==> r is None,
        answer matches Err(e) ==> (r matches Some(m) && m@ == update_failed_message(e@)),
{
    match answer {
        Ok(()) => None,
        Err(e) => Some(crate::text::prefixed("could not update playlist on server: ", e.as_str())),
    }
}

/// The server's answer to deleting a playlist: none on success (the playlist goes here too),
/// the message to show on an error (nothing changes).
pub fn delete_answered(answer: &Result<(), String>) -> (r: Option<String>)
    ensures
        answer is Ok ==> r is None,
        answer matches Err(e) ==> (r matches Some(m) && m@ == delete_failed_message(e@)),
{
    match answer {
        Ok(()) => None,
        Err(e) => Some(crate::text::prefixed("could not delete playlist from server: ", e.as_str())),
    }
}

/// The search bar: whether it is open, and the text typed into it.
#[derive(Debug)]
pub struct SearchState {
    pub active: bool,
    pub text: String,
}

impl SearchState {
    /// A closed search bar holding `text`.
    pub fn new(text: String) -> (r: SearchState)
        ensures
            !r.active,
            r.text == text,
    {
        SearchState { active: false, text }
    }

    /// Opens or closes the search bar; returns the search the views are to filter by: the
    /// text typed when it opens, nothing when it closes.
    pub fn activate(&mut self, active: bool) -> (r: String)
        ensures
            final(self).active == active,
            final(self).text == old(self).text,
            r@ == if active { old(self).text@ } else { Seq::<char>::empty() },
    {
        self.active = active;
        if active {
            self.text.clone()
        } else {
            String::new()
        }
    }

    /// The text typed changed: it is kept, and while the bar is open the views are to filter
    /// by it.
    pub fn changed(&mut self, text: String) -> (r: Option<String>)
        ensures
            final(self).active == old(self).active,
            final(self).text@ == text@,
            old(self).active ==> (r matches Some(t) && t@ == text@),
            !old(self).active ==> r is None,
    {
        let result = if self.active {
            Some(text.clone())
        } else {
            None
        };
        self.text = text;
        result
    }
}

} // verus!
