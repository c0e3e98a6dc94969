//! The summary lines of albums, playlists and the tracks view.
use vstd::prelude::*;
use vstd::string::*;
use crate::text::{decimal, signed_decimal, push_decimal, i64_to_string};
use crate::common::{convert_for_label, time_label};
use crate::i18n::gettext;

verus! {

/// The label of a duration given in seconds.
pub open spec fn duration_label(seconds: int) -> Seq<char> {
    match time_label(seconds * 1000) {
        Some(l) => l,
        None => "-1"@,
    }
}

/// Translated words of the album summary.
pub struct AlbumWords {
    pub songs: String,
    pub length: String,
    pub release: String,
    pub played: String,
    pub times: String,
}

/// The summary of an album: `Songs: n • Length: l`, then ` • Release: year` when the year is
/// known and ` • played n times` when the play count is.
pub open spec fn album_info(w: (Seq<char>, Seq<char>, Seq<char>, Seq<char>, Seq<char>), songs: nat, duration: int, year: Option<i32>, play_count: Option<i64>) -> Seq<char> {
    let base = w.0 + ": "@ + decimal(songs) + " • "@ + w.1 + ": "@ + duration_label(duration);
    let with_year = match year {
        Some(y) => base + " • "@ + w.2 + ": "@ + signed_decimal(y as int),
        None => base,
    };
    match play_count {
        Some(p) => with_year + " • "@ + w.3 + seq![' '] + signed_decimal(p as int) + seq![' '] + w.4,
        None => with_year,
    }
}

/// The summary of an album from its translated words.
pub fn album_info_with(w: &AlbumWords, songs: usize, duration: i32, year: Option<i32>, play_count: Option<i64>) -> (r: String)
    ensures
        r@ == album_info((w.songs@, w.length@, w.release@, w.played@, w.times@), songs as nat, duration as int, year, play_count),
{
    let mut s = String::from_str(w.songs.as_str());
    s.append(": ");
    push_decimal(&mut s, songs as u64);
    s.append(" • ");
    s.append(w.length.as_str());
    s.append(": ");
    let label = convert_for_label((duration as i64) * 1000);
    s.append(label.as_str());
    let ghost base = s@;
    proof {
        assert(base =~= w.songs@ + ": "@ + decimal(songs as nat) + " • "@ + w.length@ + ": "@ + duration_label(duration as int));
    }
    if let Some(y) = year {
        s.append(" • ");
        s.append(w.release.as_str());
        s.append(": ");
        let t = i64_to_string(y as i64);
        s.append(t.as_str());
        proof {
            assert(s@ =~= base + " • "@ + w.release@ + ": "@ + signed_decimal(y as int));
        }
    }
    let ghost with_year = s@;
    if let Some(p) = play_count {
        proof { reveal_strlit(" "); }
        s.append(" • ");
        s.append(w.played.as_str());
        s.append(" ");
        let t = i64_to_string(p);
        s.append(t.as_str());
        s.append(" ");
        s.append(w.times.as_str());
        proof {
            assert(s@ =~= with_year + " • "@ + w.played@ + seq![' '] + signed_decimal(p as int) + seq![' '] + w.times@);
        }
    }
    s
}

/// The summary of an album in the language of the user.
pub fn build_info_string(songs: usize, duration: i32, year: Option<i32>, play_count: Option<i64>) -> (r: String)
    ensures
        exists|w: (Seq<char>, Seq<char>, Seq<char>, Seq<char>, Seq<char>)| r@ == album_info(w, songs as nat, duration as int, year, play_count),
{
    proof {
        reveal_strlit("Songs");
        reveal_strlit("Length");
        reveal_strlit("Release");
        reveal_strlit("played");
        reveal_strlit("times");
    }
    let w = AlbumWords {
        songs: gettext("Songs"),
        length: gettext("Length"),
        release: gettext("Release"),
        played: gettext("played"),
        times: gettext("times"),
    };
    album_info_with(&w, songs, duration, year, play_count)
}

/// The summary of a playlist: `Songs: n • Length: l • created`, where `created` is its
/// creation time as the user's locale writes it.
pub open spec fn playlist_info(songs_word: Seq<char>, songs: int, length_word: Seq<char>, duration: int, created: Seq<char>) -> Seq<char> {
    songs_word + ": "@ + signed_decimal(songs) + " • "@ + length_word + ": "@ + duration_label(duration) + " • "@ + created
}

/// The summary of a playlist from its translated words.
pub fn playlist_info_with(songs_word: &str, songs: i32, length_word: &str, duration: i32, created: &str) -> (r: String)
    ensures
        r@ == playlist_info(songs_word@, songs as int, length_word@, duration as int, created@),
{
    let mut s = String::from_str(songs_word);
    s.append(": ");
    let n = i64_to_string(songs as i64);
    s.append(n.as_str());
    s.append(" • ");
    s.append(length_word);
    s.append(": ");
    let label = convert_for_label((duration as i64) * 1000);
    s.append(label.as_str());
    s.append(" • ");
    s.append(created);
    proof {
        assert(s@ =~= playlist_info(songs_word@, songs as int, length_word@, duration as int, created@));
    }
    s
}

/// The summary of a playlist in the language of the user; `created` is its creation time as
/// the user's locale writes it.
pub fn playlist_info_string(songs: i32, duration: i32, created: &str) -> (r: String)
    ensures
        exists|a: Seq<char>, b: Seq<char>| r@ == playlist_info(a, songs as int, b, duration as int, created@),
{
    proof {
        reveal_strlit("Songs");
        reveal_strlit("Length");
    }
    let a = gettext("Songs");
    let b = gettext("Length");
    playlist_info_with(a.as_str(), songs, b.as_str(), duration, created)
}

/// A count label: `label: n`.
pub open spec fn count_label(label: Seq<char>, n: nat) -> Seq<char> {
    label + ": "@ + decimal(n)
}

/// A count label from its translated word.
pub fn count_label_with(label: &str, n: usize) -> (r: String)
    ensures
        r@ == count_label(label@, n as nat),
{
    let mut s = String::from_str(label);
    s.append(": ");
    push_decimal(&mut s, n as u64);
    s
}

/// The three count labels of the tracks view from their translated words: shown tracks, then
/// the label of the artists, which counts the shown albums, then the label of the albums, which
/// counts the shown artists (the two counts are crossed, as the view has them).
pub fn update_count_labels_with(
    tracks_word: &str,
    artists_word: &str,
    albums_word: &str,
    tracks: usize,
    albums: usize,
    artists: usize,
) -> (r: (String, String, String))
    ensures
        r.0@ == count_label(tracks_word@, tracks as nat),
        r.1@ == count_label(artists_word@, albums as nat),
        r.2@ == count_label(albums_word@, artists as nat),
{
    (count_label_with(tracks_word, tracks), count_label_with(artists_word, albums), count_label_with(albums_word, artists))
}

/// The three count labels of the tracks view, with the words "Shown tracks", "Shown artists"
/// and "Shown albums" translated (see `update_count_labels_with`).
pub fn update_count_labels(tracks: usize, albums: usize, artists: usize) -> (r: (String, String, String))
    ensures
        exists|a: Seq<char>, b: Seq<char>, c: Seq<char>| r.0@ == count_label(a, tracks as nat) && r.1@ == count_label(b, albums as nat)
            && r.2@ == count_label(c, artists as nat),
{
    proof {
        reveal_strlit("Shown tracks");
        reveal_strlit("Shown artists");
        reveal_strlit("Shown albums");
    }
    let a = gettext("Shown tracks");
    let b = gettext("Shown artists");
    let c = gettext("Shown albums");
    update_count_labels_with(a.as_str(), b.as_str(), c.as_str(), tracks, albums, artists)
}

/// The two count labels of the albums view from their translated words: the shown albums,
/// then the shown artists.
pub fn update_labels_with(albums_word: &str, artists_word: &str, albums: usize, artists: usize) -> (r: (String, String))
    ensures
        r.0@ == count_label(albums_word@, albums as nat),
        r.1@ == count_label(artists_word@, artists as nat),
{
    (count_label_with(albums_word, albums), count_label_with(artists_word, artists))
}

/// The two count labels of the albums view, with the words "Shown albums" and "Shown artists"
/// translated (see `update_labels_with`).
pub fn update_labels(albums: usize, artists: usize) -> (r: (String, String))
    ensures
        exists|a: Seq<char>, b: Seq<char>| r.0@ == count_label(a, albums as nat) && r.1@ == count_label(b, artists as nat),
{
    proof {
        reveal_strlit("Shown albums");
        reveal_strlit("Shown artists");
    }
    let a = gettext("Shown albums");
    let b = gettext("Shown artists");
    update_labels_with(a.as_str(), b.as_str(), albums, artists)
}

} // verus!
