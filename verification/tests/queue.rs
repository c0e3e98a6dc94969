use buoy::queue::{PlayState, Queue, QueueStep, Song};
use buoy::sequence::{Repeat, Shuffle};

fn song(id: &str) -> Song {
    Song {
        id: String::from(id),
        title: format!("title {id}"),
        artist: Some(String::from("artist")),
        starred: false,
        play_count: None,
    }
}

fn queue_of(ids: &[&str], current: Option<usize>) -> Queue {
    Queue::from_songs(ids.iter().map(|i| song(i)).collect(), current)
}

fn ids(q: &Queue) -> Vec<String> {
    q.songs().into_iter().map(|s| s.id).collect()
}

fn states(q: &Queue) -> Vec<PlayState> {
    (0..q.len()).map(|i| q.get(i).unwrap().state).collect()
}

#[test]
fn restored_queue_pauses_current() {
    let q = queue_of(&["a", "b", "c"], Some(1));
    assert_eq!(states(&q), vec![PlayState::Stop, PlayState::Pause, PlayState::Stop]);
    assert_eq!(q.current(), Some(1));
    assert_eq!(q.get(2).unwrap().uid, 2);
    assert!(q.get(3).is_none());
    assert!(q.can_play());
    assert!(!Queue::new().can_play());
}

#[test]
fn activate_plays_one_song() {
    let mut q = queue_of(&["a", "b", "c"], Some(0));
    let s = q.activate(2).unwrap();
    assert_eq!(s.id, "c");
    assert_eq!(states(&q), vec![PlayState::Stop, PlayState::Stop, PlayState::Play]);
    assert!(q.activate(5).is_none());
    assert_eq!(states(&q), vec![PlayState::Stop; 3]);
    assert_eq!(q.current(), None);
}

#[test]
fn sequential_next_and_previous() {
    let mut q = queue_of(&["a", "b", "c"], None);
    assert_eq!(q.next_step(Repeat::Normal, Shuffle::Sequential), QueueStep::Activate(0));
    assert_eq!(q.previous_step(Repeat::Normal, Shuffle::Sequential), QueueStep::Nothing);
    assert_eq!(q.play_next(Repeat::Normal, Shuffle::Sequential), QueueStep::Activate(0));
    assert_eq!(q.play_next(Repeat::Normal, Shuffle::Sequential), QueueStep::Activate(1));
    assert_eq!(q.current(), Some(1));
    assert_eq!(q.play_previous(Repeat::Normal, Shuffle::Sequential), QueueStep::Activate(0));
    assert_eq!(q.play_next(Repeat::Normal, Shuffle::Sequential), QueueStep::Activate(1));
    assert_eq!(q.play_next(Repeat::Normal, Shuffle::Sequential), QueueStep::Activate(2));
    assert_eq!(q.play_next(Repeat::Normal, Shuffle::Sequential), QueueStep::StopAll);
    assert_eq!(q.current(), None);
}

#[test]
fn repeat_all_wraps_around() {
    let mut q = queue_of(&["a", "b"], Some(1));
    assert_eq!(q.play_next(Repeat::All, Shuffle::Sequential), QueueStep::Activate(0));
    assert_eq!(q.play_previous(Repeat::All, Shuffle::Sequential), QueueStep::Activate(1));
}

#[test]
fn repeat_one_stays() {
    let mut q = queue_of(&["a", "b", "c"], Some(1));
    assert_eq!(q.play_next(Repeat::One, Shuffle::Shuffle), QueueStep::Activate(1));
    assert_eq!(q.play_previous(Repeat::One, Shuffle::Sequential), QueueStep::Activate(1));
    assert_eq!(q.current(), Some(1));
}

#[test]
fn shuffle_visits_every_song_once() {
    let mut q = queue_of(&["a", "b", "c", "d", "e"], None);
    let mut seen = Vec::new();
    for _ in 0..5 {
        match q.play_next(Repeat::Normal, Shuffle::Shuffle) {
            QueueStep::Activate(i) => seen.push(i),
            other => panic!("unexpected step {other:?}"),
        }
    }
    assert_eq!(seen[0], 0);
    let mut sorted = seen.clone();
    sorted.sort();
    assert_eq!(sorted, vec![0, 1, 2, 3, 4]);
}

#[test]
fn shuffle_previous_undoes_next() {
    let mut q = queue_of(&["a", "b", "c", "d"], Some(2));
    q.activate(2);
    let step = q.play_next(Repeat::Normal, Shuffle::Shuffle);
    assert!(matches!(step, QueueStep::Activate(_)));
    assert_eq!(q.play_previous(Repeat::Normal, Shuffle::Shuffle), QueueStep::Activate(2));
}

#[test]
fn offered_controls() {
    let q = queue_of(&["a", "b"], Some(0));
    assert!(q.can_play_next(Repeat::Normal, Shuffle::Sequential));
    assert!(!q.can_play_previous(Repeat::Normal, Shuffle::Sequential));
    assert!(q.can_play_previous(Repeat::All, Shuffle::Sequential));
    assert!(q.can_play_previous(Repeat::Normal, Shuffle::Shuffle));
    let e = Queue::new();
    assert!(!e.can_play_next(Repeat::All, Shuffle::Shuffle));
    assert!(!e.can_play_previous(Repeat::All, Shuffle::Shuffle));
    let last = queue_of(&["a", "b"], Some(1));
    assert!(last.can_play_next(Repeat::Normal, Shuffle::Sequential));
    assert!(last.can_play_previous(Repeat::Normal, Shuffle::Sequential));
}

#[test]
fn state_of_current_song() {
    let mut q = queue_of(&["a", "b"], Some(1));
    q.new_state(PlayState::Play);
    assert_eq!(states(&q), vec![PlayState::Stop, PlayState::Play]);
    q.set_current(Some(0));
    assert_eq!(states(&q), vec![PlayState::Pause, PlayState::Play]);
    assert_eq!(q.current(), Some(0));
    let mut none = queue_of(&["a"], None);
    none.new_state(PlayState::Play);
    assert_eq!(states(&none), vec![PlayState::Stop]);
}

#[test]
fn append_and_insert_after_current() {
    let mut q = queue_of(&["a", "b"], Some(0));
    assert!(q.append(vec![song("c")]));
    assert_eq!(ids(&q), vec!["a", "b", "c"]);
    assert_eq!(q.get(2).unwrap().uid, 2);
    assert_eq!(q.current(), Some(0));
    assert!(q.insert_after_current(vec![song("x"), song("y")]));
    assert_eq!(ids(&q), vec!["a", "x", "y", "b", "c"]);
    assert_eq!(q.get(1).unwrap().uid, 3);
    assert_eq!(q.get(1).unwrap().state, PlayState::Stop);
    let mut e = Queue::new();
    assert!(!e.append(vec![]));
    assert!(e.insert_after_current(vec![song("z")]));
    assert_eq!(ids(&e), vec!["z"]);
}

#[test]
fn drop_insert_places_songs() {
    let mut q = queue_of(&["a", "b", "c"], None);
    q.drop_insert(1, false, vec![song("x")]);
    assert_eq!(ids(&q), vec!["a", "x", "b", "c"]);
    q.drop_insert(3, true, vec![song("y")]);
    assert_eq!(ids(&q), vec!["a", "x", "b", "c", "y"]);
}

#[test]
fn remove_selected_rows() {
    let mut q = queue_of(&["a", "b", "c", "d"], Some(2));
    assert!(!q.remove(&vec![0, 3, 9]));
    assert_eq!(ids(&q), vec!["b", "c"]);
    assert_eq!(q.current(), Some(1));
    assert!(q.remove(&vec![1]));
    assert_eq!(ids(&q), vec!["b"]);
    assert_eq!(q.current(), None);
}

#[test]
fn drop_move_moves_rows() {
    let mut q = queue_of(&["a", "b", "c", "d"], Some(0));
    let moved = q.drop_move(0, &vec![0, 1], 3, true).unwrap();
    assert_eq!(ids(&q), vec!["c", "d", "a", "b"]);
    assert_eq!(moved, vec![4, 5]);
    assert_eq!(q.get(2).unwrap().uid, 4);
    assert_eq!(q.get(2).unwrap().state, PlayState::Pause);
    let moved = q.drop_move(3, &vec![0], 0, false).unwrap();
    assert_eq!(moved, vec![6]);
    assert_eq!(ids(&q), vec!["d", "c", "a", "b"]);
    assert_eq!(q.drop_move(99, &vec![], 0, false), None);
    assert_eq!(ids(&q), vec!["d", "c", "a", "b"]);
}

#[test]
fn uids_find_rows() {
    let mut q = queue_of(&["a", "b"], None);
    assert_eq!(q.index_of_uid(1), Some(1));
    assert_eq!(q.index_of_uid(7), None);
    assert_eq!(q.activate_uid(1).unwrap().id, "b");
    assert_eq!(q.current(), Some(1));
    assert!(q.activate_uid(7).is_none());
    assert_eq!(q.current(), Some(1));
}

#[test]
fn favorites_and_play_counts() {
    let mut q = queue_of(&["a", "b", "a"], None);
    q.update_favorite_song("a", true);
    let songs = q.songs();
    assert!(songs[0].starred && !songs[1].starred && songs[2].starred);
    q.update_play_count_song("b", Some(9));
    assert_eq!(q.songs()[1].play_count, Some(9));
    assert_eq!(q.songs()[0].play_count, None);
}

#[test]
fn selected_songs_in_given_order() {
    let q = queue_of(&["a", "b", "c"], None);
    let picked: Vec<String> = q.selected_songs(&vec![2, 0, 5]).into_iter().map(|s| s.id).collect();
    assert_eq!(picked, vec!["c", "a"]);
}

#[test]
fn clear_empties_queue() {
    let mut q = queue_of(&["a", "b"], Some(0));
    q.clear();
    assert_eq!(q.len(), 0);
    assert!(q.append(vec![song("c")]));
    assert_eq!(q.get(0).unwrap().uid, 2);
}

#[test]
fn duplicate_copies_song() {
    let s = song("q");
    let d = s.duplicate();
    assert_eq!(d.id, s.id);
    assert_eq!(d.title, "title q");
    assert_eq!(d.artist, Some(String::from("artist")));
}

#[test]
fn replace_queue() {
    let mut q = queue_of(&["a", "b"], Some(0));
    assert!(q.replace(vec![song("x"), song("y")]));
    assert_eq!(ids(&q), vec!["x", "y"]);
    assert_eq!(q.get(0).unwrap().uid, 2);
    assert_eq!(q.current(), None);
    assert!(!q.replace(vec![]));
    assert_eq!(q.len(), 0);
}

#[test]
fn dropped_songs_stay_out_of_shuffle_order() {
    let mut q = queue_of(&["a", "b"], None);
    q.drop_insert(1, true, vec![song("x")]);
    assert_eq!(ids(&q), vec!["a", "b", "x"]);
    assert!(q.in_shuffle_order(0) && q.in_shuffle_order(1));
    assert!(!q.in_shuffle_order(2));
    q.activate(2);
    assert!(!q.can_step_next(Repeat::Normal, Shuffle::Shuffle));
    assert!(q.can_step_next(Repeat::One, Shuffle::Shuffle));
    assert!(q.can_step_next(Repeat::Normal, Shuffle::Sequential));
    assert!(!q.can_step_previous(Repeat::Normal, Shuffle::Shuffle));
    q.activate(0);
    assert!(q.can_step_next(Repeat::Normal, Shuffle::Shuffle));
    match q.play_next(Repeat::Normal, Shuffle::Shuffle) {
        QueueStep::Activate(i) => assert_eq!(i, 1),
        other => panic!("unexpected step {other:?}"),
    }
    q.rerandomize();
    assert!(q.in_shuffle_order(2));
}

#[test]
fn first_song_has_no_previous_in_order() {
    let q = queue_of(&["a", "b"], Some(0));
    assert!(!q.can_step_previous(Repeat::Normal, Shuffle::Sequential));
    assert!(q.can_step_previous(Repeat::All, Shuffle::Sequential));
}
