use buoy::browser::{
    batch_answered, batches_answered, playlist_batches, create_answered, delete_answered, rename_answered, BatchStep, History, ViewKind,
};
use buoy::common::search_matching;
use buoy::download::{download_targets, DownloadId, DownloadItem};
use buoy::info::{update_count_labels_with, update_labels_with};
use buoy::player::{
    album_count_answered, clicked_entry, create_playlist_action, scrobble_answered, AlbumCountStep, entries_to_queue, star_answered, star_request, tracks_queue_source,
    CreateAction, FavoriteKind, QueueSource, StarStep,
};
use buoy::playlists::{
    append_answered, playlist_deletion, remove_rows_allowed, removal_indices, sync_cleared, sync_fetched, sync_readded,
    PlaylistDeletion, PlaylistTracks,
};
use buoy::queue::{PlayState, Song};
use buoy::shown::{ShownInfo, ShownNames, ShownTrack};
use buoy::widgets::startup_state;

fn song(id: &str, artist: Option<&str>) -> Song {
    Song {
        id: String::from(id),
        title: format!("title {id}"),
        artist: artist.map(String::from),
        starred: false,
        play_count: None,
    }
}

fn ids(p: &PlaylistTracks) -> Vec<String> {
    p.songs().into_iter().map(|s| s.id).collect()
}

#[test]
fn rows_are_removed_only_from_an_unprotected_playlist() {
    assert!(!remove_rows_allowed(None));
    assert!(!remove_rows_allowed(Some(true)));
    assert!(remove_rows_allowed(Some(false)));
}

#[test]
fn removal_sends_the_selected_indices() {
    assert_eq!(removal_indices(&vec![0, 2, 5]), vec![0i64, 2, 5]);
    assert!(removal_indices(&vec![]).is_empty());
}

#[test]
fn refused_removal_keeps_the_rows() {
    let mut p = PlaylistTracks::from_songs(vec![song("a", None), song("b", None), song("c", None)]);
    let r = p.remove_rows_answered(&vec![0, 2], Err(String::from("offline")));
    assert_eq!(r, Some(String::from("removing from playlist on server failed: offline")));
    assert_eq!(ids(&p), vec!["a", "b", "c"]);
}

#[test]
fn accepted_removal_removes_the_rows() {
    let mut p = PlaylistTracks::from_songs(vec![song("a", None), song("b", None), song("c", None)]);
    let r = p.remove_rows_answered(&vec![0, 2], Ok(()));
    assert_eq!(r, None);
    assert_eq!(ids(&p), vec!["b"]);
}

#[test]
fn storing_a_playlist_goes_in_steps() {
    assert_eq!(sync_fetched(Ok(3)).unwrap(), vec![0i64, 1, 2]);
    assert_eq!(sync_fetched(Err(String::from("x"))).unwrap_err(), "fetching playlist failed: x");
    let p = PlaylistTracks::from_songs(vec![song("a", None), song("b", None)]);
    assert_eq!(sync_cleared(&p, Ok(())).unwrap(), vec!["a", "b"]);
    assert_eq!(sync_cleared(&p, Err(String::from("y"))).unwrap_err(), "deleting rows from playlist failed: y");
    assert_eq!(sync_readded(Ok(())), None);
    assert_eq!(sync_readded(Err(String::from("z"))), Some(String::from("readding ids to playlist failed: z")));
    assert_eq!(p.song_ids(), vec!["a", "b"]);
}

#[test]
fn deleting_a_playlist_from_the_list() {
    match playlist_deletion(None) {
        PlaylistDeletion::Missing(m) => assert_eq!(m, "trying to delete a playlist index that doesn't exists"),
        _ => panic!("a missing playlist is reported"),
    }
    assert!(matches!(playlist_deletion(Some(true)), PlaylistDeletion::Kept));
    assert!(matches!(playlist_deletion(Some(false)), PlaylistDeletion::Removed));
}

#[test]
fn creating_a_playlist_from_the_tracks_view() {
    assert_eq!(create_playlist_action(0, 0), CreateAction::Nothing);
    assert_eq!(create_playlist_action(5, 0), CreateAction::Create);
    assert_eq!(create_playlist_action(5, 5), CreateAction::Create);
    assert_eq!(create_playlist_action(1999, 1999), CreateAction::Create);
    assert_eq!(create_playlist_action(2000, 2000), CreateAction::AskFirst);
    assert_eq!(create_playlist_action(2500, 2400), CreateAction::AskFirst);
}

#[test]
fn tracks_handed_to_the_queue() {
    assert_eq!(tracks_queue_source(false, 0), QueueSource::All);
    assert_eq!(tracks_queue_source(false, 3), QueueSource::All);
    assert_eq!(tracks_queue_source(true, 0), QueueSource::Nothing);
    assert_eq!(tracks_queue_source(true, 3), QueueSource::Shown);
}

#[test]
fn entries_handed_to_the_queue() {
    assert!(entries_to_queue(0, vec![1, 2, 3]).is_empty());
    assert_eq!(entries_to_queue(2, vec![1, 2, 3]), vec![1, 2, 3]);
}

#[test]
fn clicked_entry_by_visible_index() {
    let visible = vec![String::from("a1"), String::from("a2")];
    assert_eq!(clicked_entry(&visible, 1), Some(String::from("a2")));
    assert_eq!(clicked_entry(&visible, 2), None);
}

#[test]
fn favorite_requests_and_answers() {
    let r = star_request(FavoriteKind::Album, String::from("al"), false);
    assert!(!r.star);
    assert!(r.songs.is_empty() && r.artists.is_empty());
    assert_eq!(r.albums, vec!["al"]);
    let r = star_request(FavoriteKind::Song, String::from("s"), true);
    assert!(r.star);
    assert_eq!(r.songs, vec!["s"]);
    match star_answered(FavoriteKind::Song, String::from("s"), true, &Err(String::from("e"))) {
        StarStep::Toast(m) => assert_eq!(m, "could not star song: e"),
        StarStep::Update { .. } => panic!("an error only shows a message"),
    }
    match star_answered(FavoriteKind::Artist, String::from("ar"), false, &Err(String::from("e"))) {
        StarStep::Toast(m) => assert_eq!(m, "could not star artist: e"),
        StarStep::Update { .. } => panic!("an error only shows a message"),
    }
    match star_answered(FavoriteKind::Album, String::from("al"), false, &Ok(())) {
        StarStep::Update { id, state } => {
            assert_eq!(id, "al");
            assert!(!state);
        },
        StarStep::Toast(_) => panic!("a success updates the views"),
    }
}

#[test]
fn startup_from_the_stored_queue() {
    let durations = vec![Some(10), None];
    let s = startup_state(&durations, Some(0));
    assert_eq!(s.state, PlayState::Pause);
    assert_eq!(s.current_song, Some(0));
    let b = s.seekbar.unwrap();
    assert_eq!(b.total_in_ms, 10000);
    assert_eq!(b.seek_in_ms, None);
    let s = startup_state(&durations, Some(1));
    assert_eq!(s.state, PlayState::Pause);
    assert_eq!(s.current_song, Some(1));
    assert!(s.seekbar.is_none());
    let s = startup_state(&durations, None);
    assert_eq!(s.state, PlayState::Stop);
    assert_eq!(s.current_song, None);
    assert!(s.seekbar.is_none());
    let s = startup_state(&durations, Some(7));
    assert_eq!(s.state, PlayState::Pause);
    assert_eq!(s.current_song, None);
    assert!(s.seekbar.is_none());
}

#[test]
fn count_label_words_go_with_their_counts() {
    let (t, a, b) = update_count_labels_with("T", "Ar", "Al", 4, 3, 2);
    assert_eq!(t, "T: 4");
    assert_eq!(a, "Ar: 3");
    assert_eq!(b, "Al: 2");
    let (al, ar) = update_labels_with("Al", "Ar", 7, 1);
    assert_eq!(al, "Al: 7");
    assert_eq!(ar, "Ar: 1");
    let info = ShownInfo::recalc(vec![
        ShownTrack { name: String::from("a"), artist: Some(String::from("X")), album: Some(String::from("P")) },
        ShownTrack { name: String::from("b"), artist: Some(String::from("X")), album: Some(String::from("Q")) },
    ]);
    let (t, a, b) = info.count_labels_with("T", "Ar", "Al");
    assert_eq!(t, "T: 2");
    assert_eq!(a, "Ar: 2");
    assert_eq!(b, "Al: 1");
}

#[test]
fn new_playlist_answers() {
    assert_eq!(create_answered(Ok(vec![1, 2])), Ok(vec![1, 2]));
    assert_eq!(
        create_answered::<u8>(Err(String::from("e"))),
        Err(String::from("could not create playlist on server: e"))
    );
    let mut kept = vec![1, 2];
    assert!(matches!(batch_answered(&mut kept, vec![3], &Ok(())), BatchStep::Continue));
    assert_eq!(kept, vec![1, 2, 3]);
    match batch_answered(&mut kept, vec![4], &Err(String::from("f"))) {
        BatchStep::Stop(m) => assert_eq!(m, "could not update playlist on server: f"),
        BatchStep::Continue => panic!("an error stops the batches"),
    }
    assert_eq!(kept, vec![1, 2, 3]);
}

#[test]
fn batches_stop_at_the_first_refusal() {
    let answers = vec![Ok(()), Err(String::from("full")), Ok(())];
    let (kept, msg) = batches_answered(vec![0], vec![vec![1, 2], vec![3], vec![4]], &answers);
    assert_eq!(kept, vec![0, 1, 2]);
    assert_eq!(msg, Some(String::from("could not update playlist on server: full")));
    let answers = vec![Ok(()), Ok(())];
    let (kept, msg) = batches_answered(vec![0], vec![vec![1], vec![2, 3]], &answers);
    assert_eq!(kept, vec![0, 1, 2, 3]);
    assert_eq!(msg, None);
}

#[test]
fn rename_and_delete_answers() {
    assert_eq!(rename_answered(&Ok(())), None);
    assert_eq!(rename_answered(&Err(String::from("r"))), Some(String::from("could not update playlist on server: r")));
    assert_eq!(delete_answered(&Ok(())), None);
    assert_eq!(delete_answered(&Err(String::from("d"))), Some(String::from("could not delete playlist from server: d")));
}

#[test]
fn showing_a_page_twice_is_showing_it_once() {
    let mut h = History::new();
    h.show(ViewKind::Albums);
    let first = h.show(ViewKind::Tracks);
    assert_eq!(first.changed_to, Some(ViewKind::Tracks));
    let second = h.show(ViewKind::Tracks);
    assert_eq!(second.changed_to, None);
    assert_eq!(second.back_sensitive, None);
    assert_eq!(h.current(), Some(ViewKind::Tracks));
    h.go_back();
    assert_eq!(h.current(), Some(ViewKind::Albums));
}

#[test]
fn download_targets_of_dropped_items() {
    let t = download_targets(DownloadItem::Album { name: String::from("Blue"), id: String::from("al1") });
    assert_eq!(t, vec![(String::from("Blue.zip"), DownloadId::Album(String::from("al1")))]);
    let t = download_targets(DownloadItem::Child { title: String::from("Song"), id: String::from("al2") });
    assert_eq!(t, vec![(String::from("Song.zip"), DownloadId::Album(String::from("al2")))]);
    let t = download_targets(DownloadItem::ArtistWithAlbums { name: String::from("X"), id: String::from("ar") });
    assert_eq!(t, vec![(String::from("X.zip"), DownloadId::Artist(String::from("ar")))]);
    let t = download_targets(DownloadItem::Playlist { name: String::from("Mix"), id: String::from("p") });
    assert_eq!(t, vec![(String::from("Mix.zip"), DownloadId::Playlist(String::from("p")))]);
    let t = download_targets(DownloadItem::Queue(vec![song("s1", Some("Ann")), song("s2", None)]));
    assert_eq!(
        t,
        vec![
            (String::from("Ann - title s1.mp3"), DownloadId::Song(String::from("s1"))),
            (String::from(" - title s2.mp3"), DownloadId::Song(String::from("s2"))),
        ]
    );
    let t = download_targets(DownloadItem::PlaylistItems(vec![(12, song("s3", Some("Bo")))]));
    assert_eq!(t, vec![(String::from("12 - Bo - title s3.mp3"), DownloadId::Song(String::from("s3")))]);
}

#[test]
fn plain_search_finds_contiguous_runs() {
    assert!(search_matching(String::from("Hello World"), String::from("lo W"), true, false));
    assert!(!search_matching(String::from("Hello World"), String::from("lo w"), true, false));
    assert!(search_matching(String::from("Hello World"), String::from("lo w"), false, false));
    assert!(search_matching(String::from("abc"), String::from(""), true, false));
    assert!(!search_matching(String::from("ab"), String::from("abc"), true, false));
}

#[test]
fn visible_artists_are_counted_once() {
    let visible = vec![String::from("a"), String::from("b"), String::from("a")];
    let n = ShownNames::from_names(&visible);
    assert_eq!(n.len(), 2);
    assert!(n.contains(&Some(String::from("a"))));
    assert!(!n.contains(&None));
    assert_eq!(ShownNames::from_names(&vec![]).len(), 0);
}

#[test]
fn dropped_songs_are_appended_in_two_steps() {
    assert_eq!(append_answered(&Ok(())), None);
    assert_eq!(append_answered(&Err(String::from("a"))), Some(String::from("appending ids to playlist failed: a")));
    let mut p = PlaylistTracks::from_songs(vec![song("a", None)]);
    let r = p.append_refetched(true, vec![song("b", None)], &Err(String::from("gone")));
    assert_eq!(r, Some(String::from("updated list not found on server: gone")));
    assert_eq!(ids(&p), vec!["a"]);
    assert_eq!(p.append_refetched(false, vec![song("b", None)], &Ok(())), None);
    assert_eq!(ids(&p), vec!["a"]);
    assert_eq!(p.append_refetched(true, vec![song("b", None), song("c", None)], &Ok(())), None);
    assert_eq!(ids(&p), vec!["a", "b", "c"]);
    assert_eq!(p.get(2).unwrap().uid, 2);
}

#[test]
fn scrobbles_count_plays() {
    assert_eq!(scrobble_answered(None, &Ok(())), Ok(Some(1)));
    assert_eq!(scrobble_answered(Some(41), &Ok(())), Ok(Some(42)));
    assert_eq!(
        scrobble_answered(Some(41), &Err(String::from("s"))),
        Err(String::from("could not scrobble to server: s"))
    );
    assert!(matches!(album_count_answered(Some(3), &Ok(Some(4))), AlbumCountStep::Update(Some(4))));
    assert!(matches!(album_count_answered(None, &Ok(Some(1))), AlbumCountStep::Update(Some(1))));
    assert!(matches!(album_count_answered(Some(3), &Ok(Some(3))), AlbumCountStep::Unchanged));
    match album_count_answered(Some(3), &Err(String::from("n"))) {
        AlbumCountStep::Toast(m) => assert_eq!(m, "could not find album: n"),
        _ => panic!("an error shows a message"),
    }
}

#[test]
fn accepted_batches_keep_every_id() {
    let ids: Vec<String> = (0..250).map(|i| format!("id{i}")).collect();
    let (first, rest) = playlist_batches(ids.clone());
    assert_eq!(first.len(), 100);
    assert_eq!(rest.len(), 2);
    let answers = vec![Ok(()), Ok(())];
    let (kept, msg) = batches_answered(first, rest, &answers);
    assert_eq!(msg, None);
    assert_eq!(kept, ids);
}
