use buoy::browser::SearchState;
use buoy::playlists::{all_track_indices, drag_enter, drag_leave, hover_timeout, DragHover, PlaylistTracks};
use buoy::queue::{PlayState, Song};
use buoy::shown::{ShownInfo, ShownNames, ShownTrack};

fn track(name: &str, artist: Option<&str>, album: Option<&str>) -> ShownTrack {
    ShownTrack { name: String::from(name), artist: artist.map(String::from), album: album.map(String::from) }
}

#[test]
fn shown_counts_distinct_artists_and_albums() {
    let info = ShownInfo::recalc(vec![
        track("a", Some("X"), Some("P")),
        track("b", Some("X"), Some("Q")),
        track("c", None, Some("Q")),
        track("d", None, None),
    ]);
    assert_eq!(info.tracks, vec!["a", "b", "c", "d"]);
    assert_eq!(info.artists.len(), 2);
    assert_eq!(info.albums.len(), 3);
    assert!(info.artists.contains(&None));
    assert!(!info.artists.contains(&Some(String::from("Y"))));
    let (t, a, b) = info.count_labels();
    assert_eq!(t, "Shown tracks: 4");
    assert_eq!(a, "Shown artists: 3");
    assert_eq!(b, "Shown albums: 2");
}

#[test]
fn shown_names_keep_each_once() {
    let mut n = ShownNames::new();
    assert_eq!(n.len(), 0);
    n.insert(Some(String::from("a")));
    n.insert(Some(String::from("a")));
    n.insert(None);
    n.insert(None);
    assert_eq!(n.len(), 2);
}

#[test]
fn search_bar_state() {
    let mut s = SearchState::new(String::from("abc"));
    assert_eq!(s.changed(String::from("abd")), None);
    assert_eq!(s.activate(true), "abd");
    assert_eq!(s.changed(String::from("x")), Some(String::from("x")));
    assert_eq!(s.activate(false), "");
    assert!(!s.active);
    assert_eq!(s.text, "x");
}

#[test]
fn dragged_over_playlist_opens_after_wait() {
    let entered = drag_enter();
    assert!(hover_timeout(entered));
    let left = drag_leave();
    assert_eq!(left, DragHover::Ready);
    assert!(!hover_timeout(left));
}

#[test]
fn indices_of_all_tracks() {
    assert_eq!(all_track_indices(3), vec![0, 1, 2]);
    assert!(all_track_indices(0).is_empty());
}

fn song(id: &str) -> Song {
    Song { id: String::from(id), title: String::from(id), artist: None, starred: false, play_count: None }
}

fn ids(p: &PlaylistTracks) -> Vec<String> {
    p.songs().into_iter().map(|s| s.id).collect()
}

#[test]
fn playlist_track_edits() {
    let mut p = PlaylistTracks::from_songs(vec![song("a"), song("b"), song("c")]);
    assert_eq!(p.len(), 3);
    assert_eq!(p.get(1).unwrap().uid, 1);
    assert_eq!(p.get(1).unwrap().state, PlayState::Stop);
    p.drop_insert(0, true, vec![song("x")]);
    assert_eq!(ids(&p), vec!["a", "x", "b", "c"]);
    assert_eq!(p.index_of_uid(3), Some(1));
    let moved = p.drop_move(0, &vec![], 3, true).unwrap();
    assert_eq!(moved, vec![4]);
    assert_eq!(ids(&p), vec!["x", "b", "c", "a"]);
    p.remove(&vec![0, 1]);
    assert_eq!(ids(&p), vec!["c", "a"]);
    p.append(vec![song("z")]);
    assert_eq!(ids(&p), vec!["c", "a", "z"]);
    assert_eq!(p.drop_move(42, &vec![], 0, false), None);
}
