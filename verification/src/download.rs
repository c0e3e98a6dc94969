//! Downloads: when to warn about their size, the names of the files written, and the
//! texts shown.
use vstd::prelude::*;
use vstd::string::*;
use crate::text::{decimal, push_decimal};
use crate::i18n::gettext;
use crate::common::or_empty;
use crate::queue::{Song, SongView};

verus! {

/// The warning before a large download, from its translated parts.
pub open spec fn size_warning(about: Seq<char>, len: nat, songs: Seq<char>, proceed: Seq<char>) -> Seq<char> {
    about + seq![' '] + decimal(len) + seq![' '] + songs + seq!['\n'] + proceed
}

/// What a download asks the server for: a song, or the archive of an album, an artist or a
/// playlist, by id.
#[derive(Debug, PartialEq, Eq)]
pub enum DownloadId {
    Song(String),
    Album(String),
    Artist(String),
    Playlist(String),
}

/// What was dropped onto the download button, as much as the download reads of it.
#[derive(Debug)]
pub enum DownloadItem {
    /// A song, downloaded as the archive of its album (the id is the album's).
    Child { title: String, id: String },
    Album { name: String, id: String },
    AlbumChild { title: String, id: String },
    AlbumWithSongs { name: String, id: String },
    Artist { name: String, id: String },
    ArtistWithAlbums { name: String, id: String },
    Playlist { name: String, id: String },
    /// Songs of a list: each is downloaded as its own file.
    Queue(Vec<Song>),
    /// Rows of a playlist, with their numbers: each is downloaded as its own file.
    PlaylistItems(Vec<(usize, Song)>),
    /// Rows dragged out of the queue, which are never downloaded.
    QueueSongs,
}

/// The file name of a song of a list: `artist - title.mp3`, the artist empty when unknown.
pub open spec fn song_target_name(s: SongView) -> Seq<char> {
    or_empty(s.artist) + " - "@ + s.title + ".mp3"@
}

/// The file name of a playlist row: `number - artist - title.mp3`.
pub open spec fn row_target_name(uid: usize, s: SongView) -> Seq<char> {
    decimal(uid as nat) + " - "@ + or_empty(s.artist) + " - "@ + s.title + ".mp3"@
}

/// Whether `targets` is one archive named `title.zip` of `id`.
pub open spec fn one_archive(targets: Seq<(String, DownloadId)>, title: String, id: DownloadId) -> bool {
    &&& targets.len() == 1
    &&& targets[0].0@ == title@ + ".zip"@
    &&& targets[0].1 == id
}

/// The files a dropped item is downloaded as: one archive for a song (its album's), an album,
/// an artist or a playlist; one file per song for the songs of a list and the rows of a
/// playlist, in order.
pub open spec fn download_targets_of(item: DownloadItem, targets: Seq<(String, DownloadId)>) -> bool {
    match item {
        DownloadItem::Child { title, id } => one_archive(targets, title, DownloadId::Album(id)),
        DownloadItem::Album { name, id } => one_archive(targets, name, DownloadId::Album(id)),
        DownloadItem::AlbumChild { title, id } => one_archive(targets, title, DownloadId::Album(id)),
        DownloadItem::AlbumWithSongs { name, id } => one_archive(targets, name, DownloadId::Album(id)),
        DownloadItem::Artist { name, id } => one_archive(targets, name, DownloadId::Artist(id)),
        DownloadItem::ArtistWithAlbums { name, id } => one_archive(targets, name, DownloadId::Artist(id)),
        DownloadItem::Playlist { name, id } => one_archive(targets, name, DownloadId::Playlist(id)),
        DownloadItem::Queue(songs) => {
            &&& targets.len() == songs@.len()
            &&& forall|k: int| 0 <= k < songs@.len() ==> {
                &&& (#[trigger] targets[k]).0@ == song_target_name(songs@[k]@)
                &&& targets[k].1 == DownloadId::Song(songs@[k].id)
            }
        },
        DownloadItem::PlaylistItems(rows) => {
            &&& targets.len() == rows@.len()
            &&& forall|k: int| 0 <= k < rows@.len() ==> {
                &&& (#[trigger] targets[k]).0@ == row_target_name(rows@[k].0, rows@[k].1@)
                &&& targets[k].1 == DownloadId::Song(rows@[k].1.id)
            }
        },
        DownloadItem::QueueSongs => false,
    }
}

/// Whether `id` asks for what `item` is: the album of a song and an album are asked for as
/// albums, an artist as an artist, a playlist as a playlist, and the songs of a list or of a
/// playlist each as a song.
pub open spec fn asks_for_kind(item: DownloadItem, id: DownloadId) -> bool {
    match item {
        DownloadItem::Child { .. } | DownloadItem::Album { .. } | DownloadItem::AlbumChild { .. }
        | DownloadItem::AlbumWithSongs { .. } => id is Album,
        DownloadItem::Artist { .. } | DownloadItem::ArtistWithAlbums { .. } => id is Artist,
        DownloadItem::Playlist { .. } => id is Playlist,
        DownloadItem::Queue(_) | DownloadItem::PlaylistItems(_) => id is Song,
        DownloadItem::QueueSongs => false,
    }
}

/// The id of a single item (not a list of songs).
pub open spec fn single_item_id(item: DownloadItem) -> Option<String> {
    match item {
        DownloadItem::Child { id, .. } => Some(id),
        DownloadItem::Album { id, .. } => Some(id),
        DownloadItem::AlbumChild { id, .. } => Some(id),
        DownloadItem::AlbumWithSongs { id, .. } => Some(id),
        DownloadItem::Artist { id, .. } => Some(id),
        DownloadItem::ArtistWithAlbums { id, .. } => Some(id),
        DownloadItem::Playlist { id, .. } => Some(id),
        _ => None,
    }
}

/// The id inside what is asked for.
pub open spec fn asked_id(id: DownloadId) -> String {
    match id {
        DownloadId::Song(s) => s,
        DownloadId::Album(s) => s,
        DownloadId::Artist(s) => s,
        DownloadId::Playlist(s) => s,
    }
}

/// Every file of a download asks the server for the kind of thing dropped: an artist is asked
/// for as an artist, an album or a song's album as an album, a playlist as a playlist, each
/// song of a list as a song. A single item gives one archive, named with `.zip`, of its own
/// id; a list gives one file per song, named with `.mp3`.
pub proof fn law_download_asks_for_the_item(item: DownloadItem, targets: Seq<(String, DownloadId)>)
    requires
        download_targets_of(item, targets),
    ensures
        forall|k: int| 0 <= k < targets.len() ==> asks_for_kind(item, #[trigger] targets[k].1),
        single_item_id(item) matches Some(id) ==> targets.len() == 1 && asked_id(targets[0].1) == id
            && targets[0].0@.len() >= 4 && targets[0].0@.subrange(targets[0].0@.len() - 4, targets[0].0@.len() as int)
            == ".zip"@,
        item matches DownloadItem::Queue(songs) ==> targets.len() == songs@.len() && forall|k: int|
            0 <= k < targets.len() ==> asked_id(#[trigger] targets[k].1) == songs@[k].id,
        item matches DownloadItem::PlaylistItems(rows) ==> targets.len() == rows@.len() && forall|k: int|
            0 <= k < targets.len() ==> asked_id(#[trigger] targets[k].1) == rows@[k].1.id,
{
    reveal_strlit(".zip");
    if single_item_id(item) is Some {
        let name = targets[0].0@;
        assert(name.subrange(name.len() - 4, name.len() as int) =~= ".zip"@);
    }
}

/// The file name of a song of a list.
fn song_target(song: &Song) -> (r: String)
    ensures
        r@ == song_target_name(song@),
{
    match &song.artist {
        Some(a) => Download::song_file_name(Some(a.as_str()), song.title.as_str()),
        None => Download::song_file_name(None, song.title.as_str()),
    }
}

/// The file name of a playlist row.
fn row_target(uid: usize, song: &Song) -> (r: String)
    ensures
        r@ == row_target_name(uid, song@),
{
    match &song.artist {
        Some(a) => Download::playlist_item_file_name(uid, Some(a.as_str()), song.title.as_str()),
        None => Download::playlist_item_file_name(uid, None, song.title.as_str()),
    }
}

/// The files a dropped item is downloaded as, each with what the server is asked for. Rows
/// dragged out of the queue are never offered for download and are left out.
pub fn download_targets(item: DownloadItem) -> (r: Vec<(String, DownloadId)>)
    requires
        !(item is QueueSongs),
    ensures
        download_targets_of(item, r@),
{
    match item {
        DownloadItem::Child { title, id } => vec![(Download::archive_name(title.as_str()), DownloadId::Album(id))],
        DownloadItem::Album { name, id } => vec![(Download::archive_name(name.as_str()), DownloadId::Album(id))],
        DownloadItem::AlbumChild { title, id } => vec![(Download::archive_name(title.as_str()), DownloadId::Album(id))],
        DownloadItem::AlbumWithSongs { name, id } => vec![(Download::archive_name(name.as_str()), DownloadId::Album(id))],
        DownloadItem::Artist { name, id } => vec![(Download::archive_name(name.as_str()), DownloadId::Artist(id))],
        DownloadItem::ArtistWithAlbums { name, id } => vec![(Download::archive_name(name.as_str()), DownloadId::Artist(id))],
        DownloadItem::Playlist { name, id } => vec![(Download::archive_name(name.as_str()), DownloadId::Playlist(id))],
        DownloadItem::Queue(songs) => {
            let mut r: Vec<(String, DownloadId)> = Vec::new();
            let mut i: usize = 0;
            while i < songs.len()
                invariant
                    0 <= i <= songs@.len(),
                    r@.len() == i,
                    forall|k: int| 0 <= k < i ==> {
                        &&& (#[trigger] r@[k]).0@ == song_target_name(songs@[k]@)
                        &&& r@[k].1 == DownloadId::Song(songs@[k].id)
                    },
                decreases songs@.len() - i,
            {
                let name = song_target(&songs[i]);
                r.push((name, DownloadId::Song(songs[i].id.clone())));
                i = i + 1;
            }
            r
        },
        DownloadItem::PlaylistItems(rows) => {
            let mut r: Vec<(String, DownloadId)> = Vec::new();
            let mut i: usize = 0;
            while i < rows.len()
                invariant
                    0 <= i <= rows@.len(),
                    r@.len() == i,
                    forall|k: int| 0 <= k < i ==> {
                        &&& (#[trigger] r@[k]).0@ == row_target_name(rows@[k].0, rows@[k].1@)
                        &&& r@[k].1 == DownloadId::Song(rows@[k].1.id)
                    },
                decreases rows@.len() - i,
            {
                let name = row_target(rows[i].0, &rows[i].1);
                r.push((name, DownloadId::Song(rows[i].1.id.clone())));
                i = i + 1;
            }
            r
        },
        DownloadItem::QueueSongs => Vec::new(),
    }
}

/// Downloads of songs, albums, artists and playlists.
pub struct Download {}

impl Download {
    /// What a download of `len` songs starts with: the text of the warning to confirm when
    /// it holds `threshold` songs or more, none when the files are chosen right away.
    pub fn download(len: usize, threshold: usize) -> (r: Option<String>)
        ensures
            r is Some <==> len >= threshold,
            r matches Some(t) ==> exists|a: Seq<char>, b: Seq<char>, c: Seq<char>| t@ == size_warning(a, len as nat, b, c),
    {
        if Self::needs_size_warning(len, threshold) {
            Some(Self::size_warning_text(len))
        } else {
            None
        }
    }

    /// Whether a download of `len` songs asks first: from `threshold` songs on.
    pub fn needs_size_warning(len: usize, threshold: usize) -> (r: bool)
        ensures
            r == (len >= threshold),
    {
        len >= threshold
    }

    /// The name of the archive of an album, artist or playlist: its title with `.zip`.
    pub fn archive_name(title: &str) -> (r: String)
        ensures
            r@ == title@ + ".zip"@,
    {
        let mut s = String::from_str(title);
        s.append(".zip");
        s
    }

    /// The name of the file of a song: `artist - title.mp3`, the artist empty when unknown.
    pub fn song_file_name(artist: Option<&str>, title: &str) -> (r: String)
        ensures
            r@ == (match artist {
                Some(a) => a@,
                None => Seq::empty(),
            }) + " - "@ + title@ + ".mp3"@,
    {
        let mut s = match artist {
            Some(a) => String::from_str(a),
            None => String::new(),
        };
        s.append(" - ");
        s.append(title);
        s.append(".mp3");
        s
    }

    /// The name of the file of a playlist entry: `number - artist - title.mp3`.
    pub fn playlist_item_file_name(uid: usize, artist: Option<&str>, title: &str) -> (r: String)
        ensures
            r@ == decimal(uid as nat) + " - "@ + (match artist {
                Some(a) => a@,
                None => Seq::empty(),
            }) + " - "@ + title@ + ".mp3"@,
    {
        let mut s = String::new();
        push_decimal(&mut s, uid as u64);
        s.append(" - ");
        match artist {
            Some(a) => s.append(a),
            None => {},
        }
        s.append(" - ");
        s.append(title);
        s.append(".mp3");
        proof {
            let art = match artist { Some(a) => a@, None => Seq::<char>::empty() };
            assert(s@ =~= decimal(uid as nat) + " - "@ + art + " - "@ + title@ + ".mp3"@);
        }
        s
    }

    /// The warning before a large download, from its translated parts.
    pub fn size_warning_with(about: &str, len: usize, songs: &str, proceed: &str) -> (r: String)
        ensures
            r@ == size_warning(about@, len as nat, songs@, proceed@),
    {
        proof {
            reveal_strlit(" ");
            reveal_strlit("\n");
        }
        let mut s = String::from_str(about);
        s.append(" ");
        push_decimal(&mut s, len as u64);
        s.append(" ");
        s.append(songs);
        s.append("\n");
        s.append(proceed);
        proof {
            assert(s@ =~= size_warning(about@, len as nat, songs@, proceed@));
        }
        s
    }

    /// The warning before a download of `len` songs, in the language of the user.
    pub fn size_warning_text(len: usize) -> (r: String)
        ensures
            exists|a: Seq<char>, b: Seq<char>, c: Seq<char>| r@ == size_warning(a, len as nat, b, c),
    {
        proof {
            reveal_strlit("You're about to download");
            reveal_strlit("songs");
            reveal_strlit("This may take a while. Do want to proceed?");
        }
        let about = gettext("You're about to download");
        let songs = gettext("songs");
        let proceed = gettext("This may take a while. Do want to proceed?");
        Self::size_warning_with(about.as_str(), len, songs.as_str(), proceed.as_str())
    }
}

} // verus!
