//! The playlists view: opening a playlist that something is dragged over, and editing the
//! tracks of the playlist shown.
use vstd::prelude::*;
use vstd::string::*;
use crate::queue::{Queue, QueueRow, Song, without_indices, fresh_rows, view_rows, moved_sources, moved_view};
use crate::text::prefixed;

verus! {

/// Whether something dragged rests over a playlist element.
#[derive(Debug, Clone, Copy, PartialEq, Eq, Structural)]
pub enum DragHover {
    Ready,
    Entered,
}

/// What happens when the time to wait after something was dragged onto a playlist element
/// has passed: the playlist opens when the drag is still over it.
pub fn hover_timeout(state: DragHover) -> (open: bool)
    ensures
        open == (state == DragHover::Entered),
{
    state == DragHover::Entered
}

/// The state after a drag entered a playlist element (the wait starts then).
pub fn drag_enter() -> (r: DragHover)
    ensures
        r == DragHover::Entered,
{
    DragHover::Entered
}

/// The state after a drag left a playlist element.
pub fn drag_leave() -> (r: DragHover)
    ensures
        r == DragHover::Ready,
{
    DragHover::Ready
}

/// The indices of every track of a playlist of `len` tracks, in order, as the server takes
/// them when all tracks are removed before the new order is sent.
pub fn all_track_indices(len: usize) -> (r: Vec<i64>)
    requires
        len <= i64::MAX,
    ensures
        r@.len() == len,
        forall|k: int| 0 <= k < len ==> #[trigger] r@[k] == k,
{
    let mut r: Vec<i64> = Vec::new();
    let mut i: usize = 0;
    while i < len
        invariant
            0 <= i <= len,
            len <= i64::MAX,
            r@.len() == i,
            forall|k: int| 0 <= k < i ==> #[trigger] r@[k] == k,
        decreases len - i,
    {
        r.push(i as i64);
        i = i + 1;
    }
    r
}

/// Whether the selected rows of the playlist shown may be removed. `selected` is `None` when no
/// playlist is shown, else whether the playlist is write protected (`false` when it is not
/// among the playlists listed): rows are removed only from a shown playlist that is not write
/// protected, and otherwise nothing is asked of the server and nothing changes.
pub fn remove_rows_allowed(selected: Option<bool>) -> (r: bool)
    ensures
        r == (selected matches Some(wp) && !wp),
{
    match selected {
        Some(write_protected) => !write_protected,
        None => false,
    }
}

/// What a request to remove a playlist from the list does.
#[derive(Debug)]
pub enum PlaylistDeletion {
    /// No playlist is at the index given: the message is shown.
    Missing(String),
    /// The playlist is write protected: nothing happens.
    Kept,
    /// The playlist leaves the list and no tracks are shown.
    Removed,
}

/// What a request to remove a playlist from the list does, from whether the playlist at the
/// index given is write protected (`None` when no playlist is there).
pub fn playlist_deletion(write_protected: Option<bool>) -> (r: PlaylistDeletion)
    ensures
        write_protected is None ==> (r matches PlaylistDeletion::Missing(m)
            && m@ == "trying to delete a playlist index that doesn't exists"@),
        write_protected == Some(true) ==> r is Kept,
        write_protected == Some(false) ==> r is Removed,
{
    match write_protected {
        None => PlaylistDeletion::Missing(String::from_str("trying to delete a playlist index that doesn't exists")),
        Some(true) => PlaylistDeletion::Kept,
        Some(false) => PlaylistDeletion::Removed,
    }
}

/// The indices of the selected rows as the server takes them to remove the rows.
pub fn removal_indices(selected: &Vec<usize>) -> (r: Vec<i64>)
    requires
        forall|k: int| 0 <= k < selected@.len() ==> #[trigger] selected@[k] <= i64::MAX,
    ensures
        r@.len() == selected@.len(),
        forall|k: int| 0 <= k < selected@.len() ==> #[trigger] r@[k] == selected@[k],
{
    let mut r: Vec<i64> = Vec::new();
    let mut i: usize = 0;
    while i < selected.len()
        invariant
            0 <= i <= selected@.len(),
            forall|k: int| 0 <= k < selected@.len() ==> #[trigger] selected@[k] <= i64::MAX,
            r@.len() == i,
            forall|k: int| 0 <= k < i ==> #[trigger] r@[k] == selected@[k],
        decreases selected@.len() - i,
    {
        r.push(selected[i] as i64);
        i = i + 1;
    }
    r
}

/// The message shown when the server refused to remove rows.
pub open spec fn remove_failed_message(e: Seq<char>) -> Seq<char> {
    "removing from playlist on server failed: "@ + e
}

/// The message shown when the playlist to store could not be fetched.
pub open spec fn fetch_failed_message(e: Seq<char>) -> Seq<char> {
    "fetching playlist failed: "@ + e
}

/// The message shown when the stored rows could not be cleared.
pub open spec fn clear_failed_message(e: Seq<char>) -> Seq<char> {
    "deleting rows from playlist failed: "@ + e
}

/// The message shown when the rows could not be stored again.
pub open spec fn readd_failed_message(e: Seq<char>) -> Seq<char> {
    "readding ids to playlist failed: "@ + e
}

/// The message shown when the server refused to append songs dropped onto a playlist.
pub open spec fn append_failed_message(e: Seq<char>) -> Seq<char> {
    "appending ids to playlist failed: "@ + e
}

/// The message shown when a playlist that songs were appended to could not be fetched again.
pub open spec fn refetch_failed_message(e: Seq<char>) -> Seq<char> {
    "updated list not found on server: "@ + e
}

/// Songs dropped onto a playlist are appended on the server, and the playlist is then fetched
/// again. This is the first step, on the answer to appending: none on success (the playlist
/// is fetched next), the message to show on an error, after which nothing more is asked.
pub fn append_answered(answer: &Result<(), String>) -> (r: Option<String>)
    ensures
        answer is Ok ==> r is None,
        answer matches Err(e) ==> (r matches Some(m) && m@ == append_failed_message(e@)),
{
    match answer {
        Ok(()) => None,
        Err(e) => Some(prefixed("appending ids to playlist failed: ", e.as_str())),
    }
}

/// Storing the rows of the playlist shown goes in steps, as the server cannot move rows: the
/// playlist is fetched to learn how many rows it holds; all of them are removed; the ids of the
/// rows shown are appended; the playlist is fetched again and kept. This is the first step,
/// on the answer to the fetch (the number of rows stored, or the error): the indices of every
/// stored row to remove, or the message to show, after which nothing more is asked.
pub fn sync_fetched(answer: Result<usize, String>) -> (r: Result<Vec<i64>, String>)
    requires
        answer matches Ok(n) ==> n <= i64::MAX,
    ensures
        answer matches Ok(n) ==> (r matches Ok(v) && v@.len() == n && forall|k: int| 0 <= k < n ==> #[trigger] v@[k] == k),
        answer matches Err(e) ==> (r matches Err(m) && m@ == fetch_failed_message(e@)),
{
    match answer {
        Ok(n) => Ok(all_track_indices(n)),
        Err(e) => Err(prefixed("fetching playlist failed: ", e.as_str())),
    }
}

/// The step after the stored rows were removed: on success the ids to append, those of the
/// rows shown in order; on an error the message to show, after which nothing more is asked.
pub fn sync_cleared(tracks: &PlaylistTracks, answer: Result<(), String>) -> (r: Result<Vec<String>, String>)
    ensures
        answer is Ok ==> (r matches Ok(ids) && ids@.len() == tracks.rows().len()
            && forall|k: int| 0 <= k < ids@.len() ==> (#[trigger] ids@[k])@ == tracks.rows()[k].song.id@),
        answer matches Err(e) ==> (r matches Err(m) && m@ == clear_failed_message(e@)),
{
    match answer {
        Ok(()) => Ok(tracks.song_ids()),
        Err(e) => Err(prefixed("deleting rows from playlist failed: ", e.as_str())),
    }
}

/// The step after the ids were appended: none on success (the playlist is then fetched again
/// and kept), the message to show on an error, after which nothing more is asked.
pub fn sync_readded(answer: Result<(), String>) -> (r: Option<String>)
    ensures
        answer is Ok ==> r is None,
        answer matches Err(e) ==> (r matches Some(m) && m@ == readd_failed_message(e@)),
{
    match answer {
        Ok(()) => None,
        Err(e) => Some(prefixed("readding ids to playlist failed: ", e.as_str())),
    }
}

/// The tracks of the playlist shown: numbered rows, edited as the rows of the queue are.
pub struct PlaylistTracks {
    tracks: Queue,
}

impl PlaylistTracks {
    /// The rows.
    pub closed spec fn rows(&self) -> Seq<QueueRow> {
        self.tracks.rows()
    }

    /// The number the next new row will carry.
    pub closed spec fn next_uid(&self) -> usize {
        self.tracks.next_uid()
    }

    /// The rows carry distinct numbers below the next one.
    pub closed spec fn wf(&self) -> bool {
        self.tracks.wf()
    }

    /// The tracks of a playlist, numbered from 0 on.
    pub fn from_songs(songs: Vec<Song>) -> (r: PlaylistTracks)
        requires
            songs@.len() <= usize::MAX,
        ensures
            r.wf(),
            r.rows() == fresh_rows(songs@, 0),
            r.next_uid() == songs@.len(),
    {
        let mut tracks = Queue::new();
        tracks.append(songs);
        PlaylistTracks { tracks }
    }

    /// The number of tracks.
    pub fn len(&self) -> (r: usize)
        ensures
            r == self.rows().len(),
    {
        self.tracks.len()
    }

    /// The row at `index`.
    pub fn get(&self, index: usize) -> (r: Option<&QueueRow>)
        ensures
            index < self.rows().len() ==> r == Some(&self.rows()[index as int]),
            index >= self.rows().len() ==> r is None,
    {
        self.tracks.get(index)
    }

    /// Copies of the songs, in order: the ids sent to the server when the playlist is stored.
    pub fn songs(&self) -> (r: Vec<Song>)
        ensures
            r@.len() == self.rows().len(),
            forall|i: int| 0 <= i < r@.len() ==> (#[trigger] r@[i])@ == self.rows()[i].song@,
    {
        self.tracks.songs()
    }

    /// The index of the row numbered `uid`.
    pub fn index_of_uid(&self, uid: usize) -> (r: Option<usize>)
        ensures
            r matches Some(i) ==> i < self.rows().len() && self.rows()[i as int].uid == uid,
            r is None ==> forall|j: int| 0 <= j < self.rows().len() ==> (#[trigger] self.rows()[j]).uid != uid,
    {
        self.tracks.index_of_uid(uid)
    }

    /// Inserts `songs` where they were dropped: before the row at `target`, or after it when
    /// `below` is set.
    pub fn drop_insert(&mut self, target: usize, below: bool, songs: Vec<Song>)
        requires
            old(self).wf(),
            target < old(self).rows().len(),
            old(self).next_uid() + songs@.len() <= usize::MAX,
        ensures
            final(self).wf(),
            final(self).next_uid() == old(self).next_uid() + songs@.len(),
            ({
                let at = if below { target + 1 } else { target as int };
                final(self).rows() == old(self).rows().subrange(0, at) + fresh_rows(songs@, old(self).next_uid() as int)
                    + old(self).rows().subrange(at, old(self).rows().len() as int)
            }),
    {
        self.tracks.drop_insert(target, below, songs);
    }

    /// Appends `songs` at the end (a playlist without tracks takes them so).
    pub fn append(&mut self, songs: Vec<Song>)
        requires
            old(self).wf(),
            old(self).next_uid() + songs@.len() <= usize::MAX,
        ensures
            final(self).wf(),
            final(self).next_uid() == old(self).next_uid() + songs@.len(),
            final(self).rows() == old(self).rows() + fresh_rows(songs@, old(self).next_uid() as int),
    {
        self.tracks.append(songs);
    }

    /// The ids of the songs, in order: what is appended when the playlist is stored.
    pub fn song_ids(&self) -> (r: Vec<String>)
        ensures
            r@.len() == self.rows().len(),
            forall|k: int| 0 <= k < r@.len() ==> (#[trigger] r@[k])@ == self.rows()[k].song.id@,
    {
        let songs = self.songs();
        let mut r: Vec<String> = Vec::new();
        let mut i: usize = 0;
        while i < songs.len()
            invariant
                0 <= i <= songs@.len(),
                songs@.len() == self.rows().len(),
                forall|k: int| 0 <= k < songs@.len() ==> (#[trigger] songs@[k])@ == self.rows()[k].song@,
                r@.len() == i,
                forall|k: int| 0 <= k < i ==> (#[trigger] r@[k])@ == self.rows()[k].song.id@,
            decreases songs@.len() - i,
        {
            r.push(songs[i].id.clone());
            proof {
                assert(songs@[i as int]@ == self.rows()[i as int].song@);
            }
            i = i + 1;
        }
        r
    }

    /// The server's answer to removing the rows at the indices `selected`: on success the rows
    /// go here too and no message is shown; on an error the rows stay as they are and the
    /// message to show is returned.
    pub fn remove_rows_answered(&mut self, selected: &Vec<usize>, answer: Result<(), String>) -> (r: Option<String>)
        requires
            old(self).wf(),
        ensures
            final(self).wf(),
            final(self).next_uid() == old(self).next_uid(),
            answer is Ok ==> r is None && final(self).rows() == without_indices(old(self).rows(), selected@),
            answer matches Err(e) ==> (r matches Some(m) && m@ == remove_failed_message(e@)
                && final(self).rows() == old(self).rows()),
    {
        match answer {
            Ok(()) => {
                self.remove(selected);
                None
            },
            Err(e) => Some(prefixed("removing from playlist on server failed: ", e.as_str())),
        }
    }

    /// The second step of appending dropped songs to a playlist, on the answer to fetching it
    /// again: on success the songs are appended to these rows too when the playlist they went
    /// to is the one shown (`shown_is_target`), and no message is shown; on an error the rows
    /// stay as they are and the message to show is returned.
    pub fn append_refetched(&mut self, shown_is_target: bool, songs: Vec<Song>, answer: &Result<(), String>) -> (r: Option<String>)
        requires
            old(self).wf(),
            old(self).next_uid() + songs@.len() <= usize::MAX,
        ensures
            final(self).wf(),
            answer is Ok && shown_is_target ==> r is None && final(self).rows() == old(self).rows() + fresh_rows(
                songs@,
                old(self).next_uid() as int,
            ) && final(self).next_uid() == old(self).next_uid() + songs@.len(),
            answer is Ok && !shown_is_target ==> r is None && *final(self) == *old(self),
            answer matches Err(e) ==> (r matches Some(m) && m@ == refetch_failed_message(e@) && *final(self) == *old(self)),
    {
        match answer {
            Ok(()) => {
                if shown_is_target {
                    self.append(songs);
                }
                None
            },
            Err(e) => Some(prefixed("updated list not found on server: ", e.as_str())),
        }
    }

    /// Removes the rows at the indices `selected`.
    pub fn remove(&mut self, selected: &Vec<usize>)
        requires
            old(self).wf(),
        ensures
            final(self).wf(),
            final(self).rows() == without_indices(old(self).rows(), selected@),
            final(self).next_uid() == old(self).next_uid(),
    {
        self.tracks.remove(selected);
    }

    /// Moves rows where they were dropped, as the queue moves them: the selected rows (their
    /// indices listed once each) when the dragged row is among them, the dragged row alone
    /// otherwise; returns the numbers of the moved rows, none when no row carries `dragged_uid`.
    pub fn drop_move(&mut self, dragged_uid: usize, selected: &Vec<usize>, target: usize, below: bool) -> (r: Option<Vec<usize>>)
        requires
            old(self).wf(),
            target < old(self).rows().len(),
            selected@.no_duplicates(),
            old(self).next_uid() + selected@.len() + 1 <= usize::MAX,
        ensures
            final(self).wf(),
            r is None <==> forall|j: int| 0 <= j < old(self).rows().len() ==> (#[trigger] old(self).rows()[j]).uid != dragged_uid,
            r is None ==> final(self).rows() == old(self).rows(),
            r matches Some(new_uids) ==> exists|d: int| {
                &&& 0 <= d < old(self).rows().len()
                &&& old(self).rows()[d].uid == dragged_uid
                &&& {
                    let src = moved_sources(old(self).rows().len(), d, selected@);
                    let at = if below { target + 1 } else { target as int };
                    &&& view_rows(final(self).rows()) == moved_view(old(self).rows(), src, at, old(self).next_uid() as int)
                    &&& new_uids@ == Seq::new(src.len(), |k: int| (old(self).next_uid() + k) as usize)
                }
            },
    {
        self.tracks.drop_move(dragged_uid, selected, target, below)
    }
}

} // verus!
