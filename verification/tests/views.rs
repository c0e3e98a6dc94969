use buoy::browser::{playlist_batches, History, Navigation, ViewKind, PLAYLIST_CHUNK};
use buoy::cache::Cache;
use buoy::filter_row::{
    active_filters, parse_usize, Category, Filter, FilterBox, FilterBoxIn, FilterBoxOut, FilterRow, FilterRowIn, FilterRowOut, Order, OrderRow,
};
use buoy::selection::{first_indices_by_key, random_first, random_indices};
use buoy::css::DragState;
use buoy::widgets::{
    ButtonState, CoverOut, DescriptiveCover, DescriptiveCoverIn, DescriptiveCoverInit, DescriptiveCoverOut, Seekbar, SeekbarCurrent, SeekbarOut,
    VolumeButton, VolumeButtonOut,
};

#[test]
fn history_show_and_back() {
    let mut h = History::new();
    assert_eq!(h.current(), None);
    assert!(!h.can_go_back());
    let n = h.show(ViewKind::Dashboard);
    assert_eq!(n, Navigation { changed_to: Some(ViewKind::Dashboard), back_sensitive: Some(true) });
    assert_eq!(h.show(ViewKind::Dashboard), Navigation { changed_to: None, back_sensitive: None });
    h.show(ViewKind::Album);
    h.show(ViewKind::Album);
    assert_eq!(h.current(), Some(ViewKind::Album));
    assert!(h.can_go_back());
    assert_eq!(h.go_back(), Navigation { changed_to: Some(ViewKind::Album), back_sensitive: None });
    assert_eq!(h.go_back(), Navigation { changed_to: Some(ViewKind::Dashboard), back_sensitive: Some(false) });
    assert_eq!(h.go_back(), Navigation { changed_to: None, back_sensitive: Some(false) });
    assert_eq!(h.current(), Some(ViewKind::Dashboard));
}

fn id_list(n: usize) -> Vec<String> {
    (0..n).map(|i| format!("id{i}")).collect()
}

#[test]
fn short_playlist_in_one_go() {
    let (first, rest) = playlist_batches(id_list(99));
    assert_eq!(first, id_list(99));
    assert!(rest.is_empty());
}

#[test]
fn long_playlist_in_batches() {
    let ids = id_list(350);
    let (first, rest) = playlist_batches(ids.clone());
    assert_eq!(first.len(), PLAYLIST_CHUNK);
    assert_eq!(first[..], ids[..100]);
    assert_eq!(rest.len(), 3);
    assert_eq!(rest[0][..], ids[100..200]);
    assert_eq!(rest[1][..], ids[200..300]);
    assert_eq!(rest[2][..], ids[300..]);
    let (first, rest) = playlist_batches(id_list(100));
    assert_eq!(first.len(), 100);
    assert!(rest.is_empty());
}

#[test]
fn cache_gives_back_last_image() {
    let mut c = Cache::new();
    assert_eq!(c.cover("a"), None);
    assert_eq!(c.insert(String::from("a"), vec![1, 2]), vec![1, 2]);
    c.insert(String::from("b"), vec![3]);
    c.insert(String::from("a"), vec![4]);
    assert_eq!(c.cover("a"), Some(vec![4]));
    assert_eq!(c.cover("b"), Some(vec![3]));
    let entries = c.into_entries();
    assert_eq!(entries.len(), 2);
    let c2 = Cache::from_entries(vec![(String::from("x"), vec![1]), (String::from("x"), vec![2])]);
    assert_eq!(c2.cover("x"), Some(vec![2]));
    assert_eq!(c2.into_entries().len(), 1);
}

#[test]
fn parse_numbers_like_std() {
    for s in ["0", "12", "+7", "007", "", "+", "-1", "1a", " 1", "18446744073709551615", "18446744073709551616", "99999999999999999999"] {
        assert_eq!(parse_usize(s), s.parse::<usize>().ok(), "{s}");
    }
}

#[test]
fn filter_rows_state_filters() {
    let mut r = FilterRow::new(Category::Year);
    assert!(!r.active());
    assert!(r.parameter_changed("abc", Order::Greater));
    assert_eq!(r.filter(), &None);
    assert!(!r.parameter_changed("1999", Order::Less));
    assert_eq!(r.filter(), &Some(Filter::Year(Order::Less, 1999)));
    let mut t = FilterRow::new(Category::Title);
    assert!(!t.parameter_changed("", Order::Equal));
    assert_eq!(t.filter(), &Some(Filter::Title(String::new())));
    assert!(active_filters(&vec![FilterRow::new(Category::Cd), r]));
    assert!(!active_filters(&vec![FilterRow::new(Category::Cd)]));
}

#[test]
fn filter_box_collects_filters() {
    let mut b = FilterBox::new();
    assert!(b.get_filters().is_empty());
    assert_eq!(b.update(FilterBoxIn::AddNewFilter(Category::Artist)), FilterBoxOut::FiltersChanged);
    b.update(FilterBoxIn::AddNewFilter(Category::Year));
    b.update(FilterBoxIn::AddNewFilter(Category::Cd));
    b.send(0, FilterRowIn::ParameterChanged(String::from("x"), Order::Equal));
    b.send(2, FilterRowIn::ParameterChanged(String::from("2"), Order::Equal));
    b.update(FilterBoxIn::Favorited(true));
    assert_eq!(
        b.get_filters(),
        vec![Filter::Artist(String::from("x")), Filter::Cd(Order::Equal, 2), Filter::Favorite(true)]
    );
    b.update(FilterBoxIn::FilterRow(FilterRowOut::RemoveFilter(0)));
    assert_eq!(b.get_filters(), vec![Filter::Cd(Order::Equal, 2), Filter::Favorite(true)]);
    b.update(FilterBoxIn::FilterRow(FilterRowOut::RemoveFilter(7)));
    assert_eq!(b.rows.len(), 2);
    b.update(FilterBoxIn::Favorited(false));
    assert_eq!(b.get_filters(), vec![Filter::Cd(Order::Equal, 2)]);
    assert!(b.send(5, FilterRowIn::RemoveFilter).is_none());
    b.update(FilterBoxIn::ClearFilters);
    assert!(b.rows.is_empty());
}

#[test]
fn filter_row_messages() {
    let mut r = FilterRow::new(Category::TrackNumber);
    let e = r.update(3, FilterRowIn::RemoveFilter);
    assert_eq!(e.out, Some(FilterRowOut::RemoveFilter(3)));
    let e = r.update(3, FilterRowIn::SetTo(Category::TrackNumber));
    assert_eq!(e.page, Some("track_number"));
    assert_eq!(e.out, None);
    let e = r.update(3, FilterRowIn::ParameterChanged(String::from("x1"), Order::Less));
    assert_eq!(e.invalid_entry, Some(true));
    assert_eq!(e.out, Some(FilterRowOut::ParameterChanged));
    let e = r.update(3, FilterRowIn::ParameterChanged(String::from("+4"), Order::Less));
    assert_eq!(e.invalid_entry, Some(false));
    assert_eq!(r.filter(), &Some(Filter::TrackNumber(Order::Less, 4)));
    let mut g = FilterRow::new(Category::Genre);
    let e = g.update(0, FilterRowIn::ParameterChanged(String::from("Jazz"), Order::Less));
    assert_eq!(e.invalid_entry, None);
    assert_eq!(g.filter(), &Some(Filter::Genre(String::from("Jazz"))));
}

#[test]
fn filter_categories_and_orders() {
    assert_eq!(Category::all().len(), 9);
    assert_eq!(Category::Duration.to_str(), "duration");
    assert_eq!(Category::Album.to_str(), "Album");
    assert_eq!(Category::Cd.to_string(), "Cd");
    assert!(!Category::albums_view().is_empty());
    let orders = OrderRow::store();
    assert_eq!(orders[0].order, Order::Greater);
    assert_eq!(orders[2].label, "less than");
}

#[test]
fn first_by_key_is_stable() {
    let keys = vec![(1, 0), (3, 0), (2, 0), (3, 0), (0, 5)];
    assert_eq!(first_indices_by_key(&keys, 3, true), vec![1, 3, 2]);
    assert_eq!(first_indices_by_key(&keys, 2, false), vec![4, 0]);
    assert_eq!(first_indices_by_key(&keys, 10, false), vec![4, 0, 2, 1, 3]);
    assert!(first_indices_by_key(&keys, 0, true).is_empty());
    let tie = vec![(2, 1), (2, 3), (2, 2)];
    assert_eq!(first_indices_by_key(&tie, 3, true), vec![1, 2, 0]);
}

#[test]
fn random_samples_are_distinct() {
    let items = vec![10, 20, 30, 40];
    let mut r = random_first(&items, 3);
    assert_eq!(r.len(), 3);
    r.sort();
    r.dedup();
    assert_eq!(r.len(), 3);
    assert!(r.iter().all(|x| items.contains(x)));
    let mut all = random_first(&items, 9);
    all.sort();
    assert_eq!(all, items);
    let mut idx = random_indices(5, 5);
    idx.sort();
    assert_eq!(idx, vec![0, 1, 2, 3, 4]);
    assert_eq!(random_indices(5, 2).len(), 2);
    assert!(random_indices(0, 2).is_empty());
}

#[test]
fn seekbar_follows_playback() {
    let mut s = Seekbar::new(Some(SeekbarCurrent::new(5000, Some(1200))));
    assert_eq!(s.length(), 5000);
    assert_eq!(s.current, 1200);
    assert_eq!(s.dragged(300), SeekbarOut::SeekDragged(300));
    assert_eq!(s.current_label(), "0:00");
    assert_eq!(s.total_label(), "0:05");
    s.disable();
    assert!(!s.sensitive);
    s.new_range(9000);
    assert!(s.sensitive);
    assert_eq!(s.length(), 9000);
    s.seek_to(10);
    assert_eq!(s.current, 10);
    let z = Seekbar::new(None);
    assert_eq!((z.current, z.total), (0, 0));
}

#[test]
fn descriptive_cover_texts() {
    let init = DescriptiveCoverInit::new(String::from("T"), Some(String::from("c1")), None);
    assert_eq!(init.cover_id, Some(String::from("c1")));
    let mut c = DescriptiveCover::new(init);
    assert!(!c.subtitle_visible);
    c.set_title(None);
    assert_eq!(c.title, "");
    c.set_subtitle(Some(String::from("s")));
    assert_eq!(c.subtitle, Some(String::from("s")));
    let mut d = DescriptiveCover::new(DescriptiveCoverInit::new(String::from("T"), None, Some(String::from("x"))));
    assert!(d.subtitle_visible);
    d.set_subtitle(None);
    assert!(!d.subtitle_visible);
}

#[test]
fn button_state_icon() {
    assert_eq!(ButtonState::Low(String::from("audio-volume-low-symbolic")).as_str(), "audio-volume-low-symbolic");
}

#[test]
fn descriptive_cover_messages() {
    let mut c = DescriptiveCover::new(DescriptiveCoverInit::new(String::from("T"), None, Some(String::from("s"))));
    assert!(c.update(DescriptiveCoverIn::SetTitle(Some(String::from("U")))).is_none());
    assert_eq!(c.title, "U");
    assert!(c.update(DescriptiveCoverIn::SetSubtitle(None)).is_none());
    assert!(!c.subtitle_visible);
    match c.update(DescriptiveCoverIn::Cover(CoverOut::DisplayToast(String::from("oops")))) {
        Some(DescriptiveCoverOut::DisplayToast(t)) => assert_eq!(t, "oops"),
        None => panic!("the toast is passed on"),
    }
}

#[test]
fn volume_button_reports_changes() {
    let (mut v, out) = VolumeButton::new(ButtonState::Low(String::from("audio-volume-low-symbolic")));
    match out {
        VolumeButtonOut::ButtonStateChangedTo(s) => assert_eq!(s, ButtonState::Low(String::from("audio-volume-low-symbolic"))),
    }
    assert!(v.check_button_state(ButtonState::Low(String::from("audio-volume-low-symbolic"))).is_none());
    match v.check_button_state(ButtonState::High(String::from("audio-volume-high-symbolic"))) {
        Some(VolumeButtonOut::ButtonStateChangedTo(s)) => assert_eq!(s.as_str(), "audio-volume-high-symbolic"),
        None => panic!("a new look is reported"),
    }
    assert_eq!(v.button_state, ButtonState::High(String::from("audio-volume-high-symbolic")));
    assert!(ButtonState::Mute(String::from("a")).same_as(&ButtonState::Mute(String::from("a"))));
    assert!(!ButtonState::Mute(String::from("a")).same_as(&ButtonState::Low(String::from("a"))));
}

fn classes(names: &[&str]) -> Vec<String> {
    names.iter().map(|n| String::from(*n)).collect()
}

#[test]
fn drag_marks() {
    let mut c = classes(&["row", "padd-item"]);
    DragState::drop_shadow_top(&mut c);
    assert_eq!(c, classes(&["row", "drag-indicator-top"]));
    DragState::drop_shadow_bottom(&mut c);
    assert_eq!(c, classes(&["row", "drag-indicator-bottom"]));
    DragState::reset(&mut c);
    assert_eq!(c, classes(&["row", "padd-item"]));
    DragState::reset(&mut c);
    assert_eq!(c, classes(&["row", "padd-item"]));
}

#[test]
fn dashboard_lists() {
    let created = vec![(10, 0), (30, 0), (20, 0), (30, 0)];
    let plays = vec![(1, 5), (1, 2), (1, 5), (0, 0)];
    let (recent, most) = buoy::selection::dashboard_albums(&created, &plays, 3);
    assert_eq!(recent, vec![1, 3, 2]);
    assert_eq!(most, vec![2, 0, 1]);
    let (recent, most) = buoy::selection::dashboard_albums(&created, &plays, 10);
    assert_eq!(recent, vec![1, 3, 2, 0]);
    assert_eq!(most, vec![2, 0, 1, 3]);
}

#[test]
fn least_played_songs_first() {
    let counts = vec![Some(5), None, Some(2), Some(5), Some(0), None];
    assert_eq!(buoy::ranking::played_songs(&counts, 5), vec![4, 2, 0, 3]);
    assert_eq!(buoy::ranking::played_songs(&counts, 2), vec![4, 2]);
    assert!(buoy::ranking::played_songs(&vec![None, None], 5).is_empty());
}
