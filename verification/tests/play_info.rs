use buoy::cache::Cache;
use buoy::play_info::{cover_clicked, cover_message, play_info_label_with, play_info_markup, LinkedName, PlayInfoOut, PlayInfoSong};
use buoy::widgets::CoverOut;

fn song(artist: Option<LinkedName>, album: Option<LinkedName>, cover: Option<&str>) -> Option<PlayInfoSong> {
    Some(PlayInfoSong { title: String::from("T &amp; U"), artist, album, cover_art: cover.map(String::from) })
}

#[test]
fn play_info_label_parts() {
    assert_eq!(play_info_label_with(&None, "Nothing", "by", "on"), "Nothing");
    let full = song(
        Some(LinkedName { text: String::from("A"), link: Some(String::from("artist:1")) }),
        Some(LinkedName { text: String::from("B"), link: None }),
        None,
    );
    assert_eq!(
        play_info_label_with(&full, "Nothing", "by", "on"),
        "<span font_size=\"xx-large\" weight=\"bold\">T &amp; U</span>\nby <span font_size=\"large\" style=\"italic\" weight=\"bold\"><a href=\"artist:1\">A</a></span> on <span font_size=\"large\" style=\"italic\" weight=\"bold\">B</span>"
    );
    let bare = song(None, None, None);
    assert_eq!(play_info_label_with(&bare, "Nothing", "by", "on"), "<span font_size=\"xx-large\" weight=\"bold\">T &amp; U</span>\n\n");
    assert_eq!(play_info_markup(&None), "Nothing is playing");
}

#[test]
fn play_info_reports() {
    assert!(cover_clicked(&None).is_none());
    assert!(cover_clicked(&song(None, None, None)).is_none());
    match cover_clicked(&song(None, None, Some("c7"))) {
        Some(PlayInfoOut::CoverClicked(id)) => assert_eq!(id, "c7"),
        _ => panic!("the cover id is reported"),
    }
    match cover_message(CoverOut::DisplayToast(String::from("t"))) {
        PlayInfoOut::DisplayToast(t) => assert_eq!(t, "t"),
        _ => panic!("the toast is passed on"),
    }
}

#[test]
fn cache_entries_copy() {
    let mut c = Cache::new();
    c.insert(String::from("a"), vec![1]);
    c.insert(String::from("b"), vec![2, 3]);
    let e = c.entries();
    assert_eq!(e, vec![(String::from("a"), vec![1]), (String::from("b"), vec![2, 3])]);
    assert_eq!(c.cover("b"), Some(vec![2, 3]));
}

#[test]
fn desktop_notification() {
    assert_eq!(buoy::play_info::notification_body_with("Song", Some("Band"), "?"), "Song\nBand");
    assert_eq!(buoy::play_info::notification_body_with("Song", None, "?"), "Song\n?");
    assert_eq!(buoy::play_info::notification_body("Song", None), "Song\nUnkonwn Artist");
    assert!(buoy::play_info::should_notify(true, false, true));
    assert!(!buoy::play_info::should_notify(true, true, true));
    assert!(!buoy::play_info::should_notify(false, false, true));
    assert!(!buoy::play_info::should_notify(true, false, false));
}

#[test]
fn albums_view_labels() {
    let (a, b) = buoy::info::update_labels(4, 2);
    assert_eq!(a, "Shown albums: 4");
    assert_eq!(b, "Shown artists: 2");
}
