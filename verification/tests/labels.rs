use buoy::categories::{Category, SortBy};
use buoy::common::{
    convert_for_label, convert_for_label_intern, dashboard_element_shown, search_matching, sort_fn, track_matches, track_search_text, SortOrder,
};
use buoy::download::Download;
use buoy::info::{album_info_with, build_info_string, count_label_with, playlist_info_string, playlist_info_with, update_count_labels, AlbumWords};
use buoy::pages::{Content, EditState, QueueStack, State, TracksState};
use buoy::text::{i64_to_string, push_decimal, push_decimal_pad2, str_eq, u64_to_string};

#[test]
fn time_label_of_zero() {
    assert_eq!(convert_for_label(0), "0:00");
}

#[test]
fn time_label_truncates_partial_seconds() {
    assert_eq!(convert_for_label(1999), "0:01");
    assert_eq!(convert_for_label(59_999), "0:59");
    assert_eq!(convert_for_label(3_599_999), "59:59");
}

#[test]
fn time_label_of_negative_spans() {
    assert_eq!(convert_for_label(-5000), "0:-5");
    assert_eq!(convert_for_label(-61_000), "-1:-1");
    assert_eq!(convert_for_label(-3_600_000), "0:00");
}

#[test]
fn time_label_of_unrepresentable_span() {
    assert_eq!(convert_for_label_intern(i64::MIN), None);
    assert_eq!(convert_for_label(i64::MIN), "-1");
    assert_eq!(convert_for_label_intern(1000), Some(String::from("0:01")));
}

#[test]
fn time_label_of_largest_span() {
    assert_eq!(convert_for_label(i64::MAX), "2562047788015:12:55");
}

#[test]
fn sort_fn_orders_numbers() {
    assert_eq!(sort_fn(&1, &2), SortOrder::Smaller);
    assert_eq!(sort_fn(&2, &2), SortOrder::Smaller);
    assert_eq!(sort_fn(&3, &2), SortOrder::Larger);
    assert_eq!(sort_fn(&"abc", &"abd"), SortOrder::Smaller);
}

#[test]
fn search_ignores_case_unless_asked() {
    assert!(search_matching(String::from("Hello World"), String::from("WORLD"), false, false));
    assert!(!search_matching(String::from("Hello World"), String::from("WORLD"), true, false));
    assert!(search_matching(String::from("Hello World"), String::from("World"), true, false));
    assert!(!search_matching(String::from("Hello"), String::from("world"), false, false));
}

#[test]
fn search_fuzzy() {
    assert!(search_matching(String::from("Hello World"), String::from("hwd"), false, true));
    assert!(!search_matching(String::from("Hello World"), String::from("hwd"), false, false));
    assert!(!search_matching(String::from("abc"), String::from("xyz"), false, true));
}

#[test]
fn decimal_texts() {
    assert_eq!(u64_to_string(0), "0");
    assert_eq!(u64_to_string(1234), "1234");
    assert_eq!(u64_to_string(u64::MAX), "18446744073709551615");
    assert_eq!(i64_to_string(-42), "-42");
    assert_eq!(i64_to_string(i64::MIN), "-9223372036854775808");
    let mut s = String::from("x");
    push_decimal(&mut s, 7);
    push_decimal_pad2(&mut s, 5);
    push_decimal_pad2(&mut s, 42);
    assert_eq!(s, "x70542");
    assert!(str_eq("abc", "abc"));
    assert!(!str_eq("abc", "abd"));
    assert!(!str_eq("abc", "ab"));
}

#[test]
fn page_names_round_trip() {
    for s in [QueueStack::Placeholder, QueueStack::Queue] {
        assert_eq!(QueueStack::try_from(s.to_string()), Ok(s));
    }
    for c in [Content::Loading, Content::Login, Content::App, Content::NoConnection] {
        assert_eq!(Content::try_from(c.to_string()), Ok(c));
    }
    assert_eq!(State::DeleteInProgress.to_string(), "Delete dialog");
    assert_eq!(State::Edit.to_string(), "Editing");
    assert_eq!(EditState::NotActive.to_string(), "NotActive");
}

#[test]
fn page_name_errors() {
    assert_eq!(State::try_from(String::from("x")), Err(String::from("\"x\" is not a State")));
    assert_eq!(EditState::try_from(String::from("x")), Err(String::from("\"x\" is not a EditState")));
    assert_eq!(TracksState::try_from(String::from("x")), Err(String::from("\"x\" is not a State")));
    assert_eq!(QueueStack::try_from(String::from("x")), Err(String::from("x does not match a QueueStack")));
    assert_eq!(Content::try_from(String::from("x")), Err(String::from("\"x\" is not a valid Content")));
}

#[test]
fn category_names_and_errors() {
    assert_eq!(Category::Cd.to_string(), "CD");
    assert_eq!(Category::DurationMin.to_string(), "Length (min)");
    assert_eq!(Category::try_from(String::from("Album Count")), Ok(Category::AlbumCount));
    assert_eq!(Category::try_from(String::from("Nope")), Err(String::from("\"Nope\" is not a State")));
    assert_eq!(Category::tracks().len(), 9);
    assert_eq!(Category::artists(), vec![Category::Artist, Category::AlbumCount]);
    assert_eq!(Category::albums()[0], Category::Album);
}

#[test]
fn sort_by_labels_and_errors() {
    assert_eq!(SortBy::RecentlyAddedRev.label(), "Longest available");
    assert_eq!(SortBy::try_from(String::from("Z-A")), Ok(SortBy::AlphabeticalRev));
    assert_eq!(SortBy::try_from(String::from("Nope")), Err(String::from("\"Nope\" is not a SortBy")));
    assert_eq!(SortBy::artists_store(), vec![SortBy::Alphabetical, SortBy::AlphabeticalRev, SortBy::MostAlbums, SortBy::MostAlbumsRev]);
    assert_eq!(SortBy::albums_store().len(), 6);
}

#[test]
fn download_names() {
    assert!(Download::needs_size_warning(10, 10));
    assert!(!Download::needs_size_warning(9, 10));
    assert_eq!(Download::archive_name("Best of"), "Best of.zip");
    assert_eq!(Download::song_file_name(Some("Band"), "Song"), "Band - Song.mp3");
    assert_eq!(Download::song_file_name(None, "Song"), " - Song.mp3");
    assert_eq!(Download::playlist_item_file_name(12, Some("Band"), "Song"), "12 - Band - Song.mp3");
    assert_eq!(Download::playlist_item_file_name(0, None, "Song"), "0 -  - Song.mp3");
}

#[test]
fn download_asks_first_when_large() {
    assert_eq!(Download::download(2, 3), None);
    assert_eq!(
        Download::download(3, 3),
        Some(String::from("You're about to download 3 songs\nThis may take a while. Do want to proceed?"))
    );
}

#[test]
fn download_warning_text() {
    assert_eq!(Download::size_warning_with("About", 250, "songs", "Go on?"), "About 250 songs\nGo on?");
    let untranslated = Download::size_warning_text(3);
    assert_eq!(untranslated, "You're about to download 3 songs\nThis may take a while. Do want to proceed?");
}

#[test]
fn album_and_playlist_summaries() {
    let w = AlbumWords {
        songs: String::from("Songs"),
        length: String::from("Length"),
        release: String::from("Release"),
        played: String::from("played"),
        times: String::from("times"),
    };
    assert_eq!(album_info_with(&w, 12, 3661, Some(1999), Some(4)), "Songs: 12 • Length: 1:01:01 • Release: 1999 • played 4 times");
    assert_eq!(album_info_with(&w, 1, 59, None, None), "Songs: 1 • Length: 0:59");
    assert_eq!(build_info_string(2, 60, None, Some(0)), "Songs: 2 • Length: 1:00 • played 0 times");
    assert_eq!(playlist_info_with("Songs", 3, "Length", 125, "today"), "Songs: 3 • Length: 2:05 • today");
    assert_eq!(playlist_info_string(-1, 0, "now"), "Songs: -1 • Length: 0:00 • now");
}

#[test]
fn count_labels() {
    assert_eq!(count_label_with("Shown tracks", 7), "Shown tracks: 7");
    let (t, a, b) = update_count_labels(5, 2, 1);
    assert_eq!(t, "Shown tracks: 5");
    assert_eq!(a, "Shown artists: 2");
    assert_eq!(b, "Shown albums: 1");
}

#[test]
fn track_search() {
    assert_eq!(track_search_text("Song", Some("Band"), None), "Song Band ");
    assert_eq!(track_search_text("Song", None, Some("LP")), "Song  LP");
    assert!(track_matches("Song", Some("Band"), Some("LP"), "band lp", false, false));
    assert!(!track_matches("Song", Some("Band"), Some("LP"), "band lp", true, false));
    assert!(track_matches("Song", Some("Band"), Some("LP"), "sbl", false, true));
    assert!(dashboard_element_shown("A", "B", "zzz", false, false, false));
    assert!(!dashboard_element_shown("A", "B", "zzz", true, false, false));
    assert!(dashboard_element_shown("Abc", "Def", "c d", true, false, false));
}

#[test]
fn main_window_content() {
    assert_eq!(buoy::pages::startup_content(false, true), Content::Login);
    assert_eq!(buoy::pages::startup_content(true, true), Content::App);
    assert_eq!(buoy::pages::startup_content(true, false), Content::NoConnection);
    assert!(matches!(buoy::pages::app_report(buoy::pages::AppOut::Logout), buoy::pages::MainWindowStep::Show(Content::Login)));
    assert!(matches!(buoy::pages::app_report(buoy::pages::AppOut::Reload), buoy::pages::MainWindowStep::Show(Content::App)));
    match buoy::pages::app_report(buoy::pages::AppOut::DisplayToast(String::from("m"))) {
        buoy::pages::MainWindowStep::Toast(t) => assert_eq!(t, "m"),
        other => panic!("unexpected {other:?}"),
    }
}
