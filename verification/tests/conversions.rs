use buoy::categories::{Category, SortBy};
use buoy::common::convert_for_label;
use buoy::pages::{EditState, State, TracksState};

#[test]
fn convert_time() {
    let oracle = vec![
        (1000, "0:01"),
        (10000, "0:10"),
        (1000 * 60, "1:00"),
        (1000 * 60 * 10, "10:00"),
        (1000 * 60 * 60, "1:00:00"),
        (1000 * 60 * 60 * 10, "10:00:00"),
        (1000 * 60 * 60 + 1000, "1:00:01"),
    ];
    for test in oracle {
        assert_eq!(&convert_for_label(test.0), test.1);
    }
}

fn state_round_trip(state: State) {
    assert_eq!(Ok(state), State::try_from(state.to_string()));
}

fn edit_state_round_trip(state: EditState) {
    assert_eq!(Ok(state), EditState::try_from(state.to_string()));
}

fn tracks_state_round_trip(state: TracksState) {
    assert_eq!(Ok(state), TracksState::try_from(state.to_string()));
}

#[test]
fn test_state_conversion() {
    state_round_trip(State::Normal);
    state_round_trip(State::Edit);
    state_round_trip(State::DeleteInProgress);
}

#[test]
fn test_edit_state_conversion() {
    edit_state_round_trip(EditState::Active);
    edit_state_round_trip(EditState::NotActive);
}

#[test]
fn track_state_conversion() {
    tracks_state_round_trip(TracksState::Tracks);
    tracks_state_round_trip(TracksState::Stock);
}

fn category_round_trip(state: Category) {
    assert_eq!(Ok(&state), Category::try_from(state.translate()).as_ref());
}

#[test]
fn category_enum_conversion() {
    category_round_trip(Category::Favorite);
    category_round_trip(Category::Title);
    category_round_trip(Category::Year);
    category_round_trip(Category::Cd);
    category_round_trip(Category::TrackNumber);
    category_round_trip(Category::Artist);
    category_round_trip(Category::Album);
    category_round_trip(Category::Genre);
    category_round_trip(Category::DurationSec);
    category_round_trip(Category::DurationMin);
    category_round_trip(Category::BitRate);
}

fn sort_by_round_trip(state: SortBy) {
    assert_eq!(Ok(&state), SortBy::try_from(state.translate()).as_ref());
}

#[test]
fn sort_by_enum_conversion() {
    sort_by_round_trip(SortBy::Alphabetical);
    sort_by_round_trip(SortBy::AlphabeticalRev);
    sort_by_round_trip(SortBy::Release);
    sort_by_round_trip(SortBy::ReleaseRev);
    sort_by_round_trip(SortBy::RecentlyAdded);
    sort_by_round_trip(SortBy::RecentlyAddedRev);
    sort_by_round_trip(SortBy::MostAlbums);
    sort_by_round_trip(SortBy::MostAlbumsRev);
}
