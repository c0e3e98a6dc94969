use buoy::login::{
    login_error_text, login_sensitive, login_window_output, uri_changed, uri_error_text, LoginFailure, LoginForm, LoginFormAction, LoginFormIn,
    LoginFormOut, LoginWindowIn, LoginWindowOut, UrlError, UrlErrorKind,
};
use buoy::player::{
    decide, next_play_count, play_button_command, play_button_icon, playlist_needs_warning, queue_modifiers_allowed, PlayControl,
    PlayControlIn, PlayControlOut, PlayerAction, PlayerCommand, PlayerFacts, ALBUMS_QUEUE_LIMIT, ARTISTS_QUEUE_LIMIT, TRACKS_QUEUE_LIMIT,
};
use buoy::queue::PlayState;
use buoy::sequence::{Repeat, Sequence, SequenceButton, SequenceButtonIn, SequenceButtonOut, Shuffle};

#[test]
fn repeat_cycles_through_modes() {
    let mut r = Repeat::default();
    assert_eq!(r, Repeat::Normal);
    assert_eq!(r.current(), "media-playlist-no-repeat-symbolic");
    assert_eq!(r.tooltip(), Some("no repeat"));
    r.next();
    assert_eq!(r, Repeat::One);
    assert_eq!(r.current(), "media-playlist-repeat-song");
    r.next();
    assert_eq!(r, Repeat::All);
    assert_eq!(r.tooltip(), Some("repeat queue"));
    r.next();
    assert_eq!(r, Repeat::Normal);
}

#[test]
fn shuffle_cycles_through_modes() {
    let mut s = Shuffle::default();
    assert_eq!(s, Shuffle::Sequential);
    assert_eq!(s.current(), "media-playlist-consecutive-symbolic");
    s.next();
    assert_eq!(s, Shuffle::Shuffle);
    assert_eq!(s.tooltip(), Some("random order"));
    s.next();
    assert_eq!(s, Shuffle::Sequential);
}

#[test]
fn repeat_mpris_names() {
    for r in [Repeat::Normal, Repeat::One, Repeat::All] {
        assert_eq!(Repeat::from_mpris_string(&r.to_mpris_string()), r);
    }
    assert_eq!(Repeat::All.to_mpris_string(), "Playlist");
    assert_eq!(Repeat::from_mpris_string("None"), Repeat::Normal);
    assert_eq!(Repeat::from_mpris_string("whatever"), Repeat::Normal);
}

#[test]
fn modes_from_icon_names() {
    assert_eq!(Repeat::from_icon_name("media-playlist-repeat-symbolic"), Some(Repeat::All));
    assert_eq!(Repeat::from_icon_name("x"), None);
    assert_eq!(Shuffle::from_icon_name("media-playlist-shuffle-symbolic"), Some(Shuffle::Shuffle));
    assert_eq!(Shuffle::from_icon_name("media-playlist-repeat-song"), None);
}

#[test]
fn sequence_button_steps() {
    let mut b = SequenceButton::new(Repeat::One);
    assert_eq!(*b.current(), Repeat::One);
    assert_eq!(b.toggle(), Repeat::All);
    assert_eq!(*b.current(), Repeat::All);
    b.set_to(Repeat::Normal);
    assert_eq!(*b.current(), Repeat::Normal);
    let mut s = SequenceButton::new(Shuffle::Shuffle);
    assert_eq!(s.toggle(), Shuffle::Sequential);
}

fn facts() -> PlayerFacts {
    PlayerFacts {
        can_play: true,
        can_play_next: true,
        can_play_previous: true,
        has_current: true,
        playback: PlayState::Play,
        song_length_ms: 60_000,
    }
}

#[test]
fn player_decisions() {
    let f = facts();
    assert_eq!(decide(PlayerCommand::Next, f), PlayerAction::QueueNext);
    assert_eq!(decide(PlayerCommand::Next, PlayerFacts { can_play_next: false, ..f }), PlayerAction::Redirect(PlayerCommand::Stop));
    assert_eq!(decide(PlayerCommand::Previous, PlayerFacts { can_play_previous: false, ..f }), PlayerAction::Ignore);
    assert_eq!(decide(PlayerCommand::Play, PlayerFacts { can_play: false, ..f }), PlayerAction::Ignore);
    assert_eq!(decide(PlayerCommand::Play, PlayerFacts { has_current: false, ..f }), PlayerAction::Redirect(PlayerCommand::Next));
    assert_eq!(decide(PlayerCommand::Play, f), PlayerAction::Resume);
    assert_eq!(decide(PlayerCommand::PlayPause, f), PlayerAction::Redirect(PlayerCommand::Pause));
    assert_eq!(decide(PlayerCommand::PlayPause, PlayerFacts { playback: PlayState::Stop, ..f }), PlayerAction::Redirect(PlayerCommand::Play));
    assert_eq!(decide(PlayerCommand::Stop, f), PlayerAction::Stop);
    assert_eq!(decide(PlayerCommand::SetSongPosition(-5), f), PlayerAction::SeekTo(0));
    assert_eq!(decide(PlayerCommand::SetSongPosition(60_001), f), PlayerAction::Redirect(PlayerCommand::Next));
    assert_eq!(decide(PlayerCommand::SetSongPosition(60_000), f), PlayerAction::SeekTo(60_000));
    assert_eq!(decide(PlayerCommand::Repeat(Repeat::One), f), PlayerAction::AnnounceRepeat(Repeat::One));
    assert_eq!(decide(PlayerCommand::Shuffle(Shuffle::Shuffle), f), PlayerAction::AnnounceShuffle(Shuffle::Shuffle));
}

#[test]
fn play_button() {
    assert_eq!(play_button_icon(PlayState::Play), "media-playback-pause-symbolic");
    assert_eq!(play_button_icon(PlayState::Stop), "media-playback-start-symbolic");
    assert_eq!(play_button_command("media-playback-start-symbolic"), Some(PlayerCommand::Play));
    assert_eq!(play_button_command("media-playback-pause-symbolic"), Some(PlayerCommand::Pause));
    assert_eq!(play_button_command("other"), None);
}

#[test]
fn play_counts_and_limits() {
    assert_eq!(next_play_count(None), Some(1));
    assert_eq!(next_play_count(Some(4)), Some(5));
    assert!(queue_modifiers_allowed(false, TRACKS_QUEUE_LIMIT - 1, 0, TRACKS_QUEUE_LIMIT));
    assert!(!queue_modifiers_allowed(false, ALBUMS_QUEUE_LIMIT, 0, ALBUMS_QUEUE_LIMIT));
    assert!(queue_modifiers_allowed(true, 100, ARTISTS_QUEUE_LIMIT - 1, ARTISTS_QUEUE_LIMIT));
    assert!(!queue_modifiers_allowed(true, 0, ARTISTS_QUEUE_LIMIT, ARTISTS_QUEUE_LIMIT));
    assert!(playlist_needs_warning(2000));
    assert!(!playlist_needs_warning(1999));
}

#[test]
fn address_checks() {
    assert_eq!(uri_changed("https://music.example.com"), None);
    assert_eq!(uri_changed("http://"), Some(String::from("Address is empty")));
    assert_eq!(uri_changed("http://example.com:99999"), Some(String::from("Port is invalid")));
    assert_eq!(uri_changed("http://[::1"), Some(String::from("Invalid IPv6 address")));
    assert_eq!(uri_changed("no address"), Some(String::from("Address is invalid: relative URL without a base")));
    assert!(login_sensitive("me", "pw", "http://localhost:4533"));
    assert!(!login_sensitive("", "pw", "http://localhost:4533"));
    assert!(!login_sensitive("me", "", "http://localhost:4533"));
    assert!(!login_sensitive("me", "pw", "localhost"));
}

#[test]
fn error_messages() {
    let e = UrlError { kind: UrlErrorKind::Other, description: String::from("URLs more than 4 GB are not supported") };
    assert_eq!(uri_error_text(&e), "Address is invalid: URLs more than 4 GB are not supported");
    assert_eq!(login_error_text(&LoginFailure::Server), "Username or password is wrong");
    assert_eq!(login_error_text(&LoginFailure::Connection), "Connection error. Is the address valid?");
    assert_eq!(login_error_text(&LoginFailure::NoServerFound), "Subsonic server not found. Is the address correct");
    assert_eq!(login_error_text(&LoginFailure::Other(String::from("boom"))), "Login error: boom");
}

#[test]
fn sequence_button_messages() {
    let mut b = SequenceButton::new(Shuffle::Sequential);
    assert!(matches!(b.update(SequenceButtonIn::Toggle), Some(SequenceButtonOut::Clicked(Shuffle::Shuffle))));
    assert!(b.update(SequenceButtonIn::SetTo(Shuffle::Sequential)).is_none());
    assert_eq!(*b.current(), Shuffle::Sequential);
}

#[test]
fn play_controls() {
    let mut c = PlayControl::new(PlayState::Stop, Shuffle::Sequential, Repeat::All);
    assert_eq!(c.play_icon(), "media-playback-start-symbolic");
    assert_eq!(c.play_clicked(), PlayControlOut::Player(PlayerCommand::Play));
    c.update(PlayControlIn::NewState(PlayState::Play));
    assert_eq!(c.play_icon(), "media-playback-pause-symbolic");
    assert_eq!(c.play_clicked(), PlayControlOut::Player(PlayerCommand::Pause));
    c.update(PlayControlIn::Disable);
    assert!(!c.previous_sensitive && !c.play_sensitive && !c.next_sensitive);
    c.update(PlayControlIn::Enable);
    c.update(PlayControlIn::DisableNext(false));
    assert!(c.previous_sensitive && c.play_sensitive && !c.next_sensitive);
    c.update(PlayControlIn::DisablePrevious(false));
    assert!(!c.previous_sensitive);
    assert_eq!(c.previous_clicked(), PlayControlOut::Player(PlayerCommand::Previous));
    assert_eq!(c.next_clicked(), PlayControlOut::Player(PlayerCommand::Next));
    assert_eq!(c.shuffle_clicked(), PlayControlOut::Player(PlayerCommand::Shuffle(Shuffle::Shuffle)));
    assert_eq!(c.repeat_clicked(), PlayControlOut::Player(PlayerCommand::Repeat(Repeat::Normal)));
    assert_eq!((c.shuffle, c.repeat), (Shuffle::Shuffle, Repeat::Normal));
}

#[test]
fn login_form_messages() {
    assert!(matches!(LoginForm::update(LoginFormIn::AuthClicked, "u", "p", "http://x"), LoginFormAction::Authenticate));
    assert!(matches!(LoginForm::update(LoginFormIn::ResetClicked, "u", "p", "http://x"), LoginFormAction::Reset));
    assert!(matches!(
        LoginForm::update(LoginFormIn::FormChanged, "u", "p", "http://x"),
        LoginFormAction::SetLoginSensitive(true)
    ));
    assert!(matches!(
        LoginForm::update(LoginFormIn::FormChanged, "u", "p", "x"),
        LoginFormAction::SetLoginSensitive(false)
    ));
    match LoginForm::update(LoginFormIn::UriChanged, "", "", "http://") {
        LoginFormAction::MarkUri(Some(m)) => assert_eq!(m, "Address is empty"),
        other => panic!("unexpected {other:?}"),
    }
    assert!(matches!(LoginForm::update(LoginFormIn::UriChanged, "", "", "http://a.b"), LoginFormAction::MarkUri(None)));
    assert_eq!(LoginForm::auth_answered(Ok(())), Ok(LoginFormOut::LoggedIn));
    assert_eq!(LoginForm::auth_answered(Err(LoginFailure::Server)), Err(String::from("Username or password is wrong")));
    assert_eq!(login_window_output(LoginWindowIn::LoginForm(LoginFormOut::LoggedIn)), LoginWindowOut::LoggedIn);
}

#[test]
fn login_credentials_hash_the_password() {
    let c = LoginForm::credentials("me", "secret");
    assert_eq!(c.user, "me");
    assert_eq!(c.salt.len(), 24);
    assert!(c.salt.chars().all(|ch| ch.is_ascii_alphanumeric()));
    assert_eq!(c.hash.len(), 32);
    assert!(c.hash.chars().all(|ch| ch.is_ascii_digit() || ('a'..='f').contains(&ch)));
    assert_ne!(c.hash, "secret");
    let d = LoginForm::credentials("me", "secret");
    assert_ne!(c.salt, d.salt);
}
