use buoy::elements::{
    album_tooltip_text, album_tooltip_with, AlbumElement, AlbumElementIn, AlbumElementOut, ArtistElement, ArtistElementIn,
    ArtistElementOut, FavoriteMark,
};
use buoy::widgets::DescriptiveCoverOut;

fn album() -> AlbumElement {
    AlbumElement { id: String::from("al-1"), mark: FavoriteMark { starred: false, button_visible: false } }
}

#[test]
fn album_element_favorites() {
    let mut a = album();
    assert_eq!(a.mark.icon(), "non-starred-symbolic");
    match a.update(AlbumElementIn::FavoriteClicked) {
        Some(AlbumElementOut::FavoriteClicked(id, state)) => {
            assert_eq!(id, "al-1");
            assert!(state);
        }
        other => panic!("unexpected {other:?}"),
    }
    assert!(a.update(AlbumElementIn::Favorited(String::from("other"), true)).is_none());
    assert!(!a.mark.starred);
    assert!(a.update(AlbumElementIn::Favorited(String::from("al-1"), true)).is_none());
    assert!(a.mark.starred);
    assert_eq!(a.mark.icon(), "starred-symbolic");
    assert!(a.update(AlbumElementIn::Hover(true)).is_none());
    assert!(a.mark.button_visible);
    match a.update(AlbumElementIn::Clicked) {
        Some(AlbumElementOut::Clicked(id)) => assert_eq!(id, "al-1"),
        other => panic!("unexpected {other:?}"),
    }
    match a.update(AlbumElementIn::DescriptiveCover(DescriptiveCoverOut::DisplayToast(String::from("t")))) {
        Some(AlbumElementOut::DisplayToast(t)) => assert_eq!(t, "t"),
        other => panic!("unexpected {other:?}"),
    }
}

#[test]
fn artist_element_favorites() {
    let mut a = ArtistElement { id: String::from("ar-1"), mark: FavoriteMark { starred: true, button_visible: true } };
    assert!(a.update(ArtistElementIn::Favorited(String::from("ar-1"), false)).is_none());
    assert!(!a.mark.starred);
    assert!(a.update(ArtistElementIn::Hover(false)).is_none());
    assert!(!a.mark.button_visible);
    match a.update(ArtistElementIn::DescriptiveCover(DescriptiveCoverOut::DisplayToast(String::from("x")))) {
        Some(ArtistElementOut::DisplayToast(t)) => assert_eq!(t, "x"),
        None => panic!("the toast is passed on"),
    }
}

#[test]
fn album_tooltips() {
    assert_eq!(
        album_tooltip_with("LP", Some("Band"), Some(1999), Some(125), "Year", "Length"),
        "LP - Band\nYear: 1999 • Length: 2:05"
    );
    assert_eq!(album_tooltip_with("LP", None, None, None, "Year", "Length"), "LP\n");
    assert_eq!(album_tooltip_with("LP", None, None, Some(60), "Year", "Length"), "LP\n • Length: 1:00");
    assert_eq!(album_tooltip_text("LP", Some("B"), Some(-3), None), "LP - B\nYear: -3");
}
