//! The decisions the application takes on commands of the player, and on the controls that
//! depend on the queue.
use vstd::prelude::*;
use vstd::string::*;
use crate::queue::PlayState;
use crate::sequence::{Repeat, Sequence, Shuffle};

verus! {

/// A command to the player (the volume, a fraction, is handled where the sound is).
#[derive(Debug, Clone, Copy, PartialEq, Eq, Structural)]
pub enum PlayerCommand {
    Next,
    Previous,
    Play,
    Pause,
    PlayPause,
    Stop,
    SetSongPosition(i64),
    Repeat(Repeat),
    Shuffle(Shuffle),
}

/// What the application does on a command.
#[derive(Debug, Clone, Copy, PartialEq, Eq, Structural)]
pub enum PlayerAction {
    /// Nothing.
    Ignore,
    /// Handles another command in its place.
    Redirect(PlayerCommand),
    /// Plays the next song of the queue.
    QueueNext,
    /// Plays the previous song of the queue.
    QueuePrevious,
    /// Resumes playback.
    Resume,
    /// Pauses playback; the controls and the queue show it paused.
    Pause,
    /// Stops playback; the controls and the queue show it stopped, the seek bar is disabled.
    Stop,
    /// Moves the seek bar to this position, in milliseconds, and shows playback as playing.
    SeekTo(i64),
    /// Announces the repeat mode.
    AnnounceRepeat(Repeat),
    /// Announces the shuffle mode.
    AnnounceShuffle(Shuffle),
}

/// What the queue and the playback tell about themselves when a command comes.
#[derive(Debug, Clone, Copy, PartialEq, Eq, Structural)]
pub struct PlayerFacts {
    pub can_play: bool,
    pub can_play_next: bool,
    pub can_play_previous: bool,
    pub has_current: bool,
    pub playback: PlayState,
    pub song_length_ms: i64,
}

/// The action taken on `cmd`.
pub open spec fn player_action(cmd: PlayerCommand, f: PlayerFacts) -> PlayerAction {
    match cmd {
        PlayerCommand::Next => if !f.can_play_next {
            PlayerAction::Redirect(PlayerCommand::Stop)
        } else {
            PlayerAction::QueueNext
        },
        PlayerCommand::Previous => if !f.can_play_previous {
            PlayerAction::Ignore
        } else {
            PlayerAction::QueuePrevious
        },
        PlayerCommand::Play => if !f.can_play {
            PlayerAction::Ignore
        } else if !f.has_current {
            PlayerAction::Redirect(PlayerCommand::Next)
        } else {
            PlayerAction::Resume
        },
        PlayerCommand::Pause => PlayerAction::Pause,
        PlayerCommand::PlayPause => match f.playback {
            PlayState::Play => PlayerAction::Redirect(PlayerCommand::Pause),
            _ => PlayerAction::Redirect(PlayerCommand::Play),
        },
        PlayerCommand::Stop => PlayerAction::Stop,
        PlayerCommand::SetSongPosition(pos) => if pos < 0 {
            PlayerAction::SeekTo(0)
        } else if pos > f.song_length_ms {
            PlayerAction::Redirect(PlayerCommand::Next)
        } else {
            PlayerAction::SeekTo(pos)
        },
        PlayerCommand::Repeat(r) => PlayerAction::AnnounceRepeat(r),
        PlayerCommand::Shuffle(s) => PlayerAction::AnnounceShuffle(s),
    }
}

/// Decides what to do on `cmd`: "next" stops when nothing follows, "previous" and "play" do
/// nothing without something to play, "play" without a current song plays the next one,
/// "play/pause" toggles, and a song position out of the song seeks to its start or plays the
/// next song.
pub fn decide(cmd: PlayerCommand, facts: PlayerFacts) -> (r: PlayerAction)
    ensures
        r == player_action(cmd, facts),
{
    match cmd {
        PlayerCommand::Next => if !facts.can_play_next {
            PlayerAction::Redirect(PlayerCommand::Stop)
        } else {
            PlayerAction::QueueNext
        },
        PlayerCommand::Previous => if !facts.can_play_previous {
            PlayerAction::Ignore
        } else {
            PlayerAction::QueuePrevious
        },
        PlayerCommand::Play => if !facts.can_play {
            PlayerAction::Ignore
        } else if !facts.has_current {
            PlayerAction::Redirect(PlayerCommand::Next)
        } else {
            PlayerAction::Resume
        },
        PlayerCommand::Pause => PlayerAction::Pause,
        PlayerCommand::PlayPause => match facts.playback {
            PlayState::Play => PlayerAction::Redirect(PlayerCommand::Pause),
            _ => PlayerAction::Redirect(PlayerCommand::Play),
        },
        PlayerCommand::Stop => PlayerAction::Stop,
        PlayerCommand::SetSongPosition(pos) => if pos < 0 {
            PlayerAction::SeekTo(0)
        } else if pos > facts.song_length_ms {
            PlayerAction::Redirect(PlayerCommand::Next)
        } else {
            PlayerAction::SeekTo(pos)
        },
        PlayerCommand::Repeat(r) => PlayerAction::AnnounceRepeat(r),
        PlayerCommand::Shuffle(s) => PlayerAction::AnnounceShuffle(s),
    }
}

/// A seek position always lands within the song, or moves on to the next song.
pub proof fn law_seek_within_song(pos: i64, f: PlayerFacts)
    requires
        f.song_length_ms >= 0,
    ensures
        player_action(PlayerCommand::SetSongPosition(pos), f) matches PlayerAction::SeekTo(p) ==> 0 <= p <= f.song_length_ms,
{
}

/// "Play/pause" pauses what plays and plays what does not.
pub proof fn law_play_pause_toggles(f: PlayerFacts)
    ensures
        f.playback == PlayState::Play ==> player_action(PlayerCommand::PlayPause, f) == PlayerAction::Redirect(PlayerCommand::Pause),
        f.playback != PlayState::Play ==> player_action(PlayerCommand::PlayPause, f) == PlayerAction::Redirect(PlayerCommand::Play),
{
}

/// The play count after one more play: one for a song never counted.
pub fn next_play_count(count: Option<i64>) -> (r: Option<i64>)
    requires
        count matches Some(c) ==> c < i64::MAX,
    ensures
        r == Some(match count {
            Some(c) => (c + 1) as i64,
            None => 1i64,
        }),
{
    match count {
        None => Some(1),
        Some(c) => Some(c + 1),
    }
}

/// The message shown when the server refused a scrobble.
pub open spec fn scrobble_failed_message(e: Seq<char>) -> Seq<char> {
    "could not scrobble to server: "@ + e
}

/// The server's answer to scrobbling the song played (with `count` plays so far): on success
/// its new play count, which the queue and the views take; on an error the message to show,
/// after which nothing more is done.
pub fn scrobble_answered(count: Option<i64>, answer: &Result<(), String>) -> (r: Result<Option<i64>, String>)
    requires
        count matches Some(c) ==> c < i64::MAX,
    ensures
        answer is Ok ==> r == Ok::<Option<i64>, String>(Some(match count {
            Some(c) => (c + 1) as i64,
            None => 1i64,
        })),
        answer matches Err(e) ==> (r matches Err(m) && m@ == scrobble_failed_message(e@)),
{
    match answer {
        Ok(()) => Ok(next_play_count(count)),
        Err(e) => Err(crate::text::prefixed("could not scrobble to server: ", e.as_str())),
    }
}

/// The message shown when the album of a scrobbled song could not be fetched.
pub open spec fn album_fetch_failed_message(e: Seq<char>) -> Seq<char> {
    "could not find album: "@ + e
}

/// What follows fetching the album of a scrobbled song again.
#[derive(Debug)]
pub enum AlbumCountStep {
    /// The message to show.
    Toast(String),
    /// The views show this play count of the album.
    Update(Option<i64>),
    /// The count is the one known; nothing changes.
    Unchanged,
}

/// The server's answer to fetching the album of a scrobbled song (its play count on the
/// server), against the play count known here: the views take the server's count when the
/// two differ.
pub fn album_count_answered(known: Option<i64>, answer: &Result<Option<i64>, String>) -> (r: AlbumCountStep)
    ensures
        answer matches Ok(c) ==> (if *c != known { r == AlbumCountStep::Update(*c) } else { r is Unchanged }),
        answer matches Err(e) ==> (r matches AlbumCountStep::Toast(m) && m@ == album_fetch_failed_message(e@)),
{
    match answer {
        Ok(c) => {
            let same = match (c, known) {
                (Some(a), Some(b)) => *a == b,
                (None, None) => true,
                _ => false,
            };
            if same {
                AlbumCountStep::Unchanged
            } else {
                AlbumCountStep::Update(*c)
            }
        },
        Err(e) => AlbumCountStep::Toast(crate::text::prefixed("could not find album: ", e.as_str())),
    }
}

/// The icon name of the play button: pause while playing, play otherwise.
pub fn play_button_icon(state: PlayState) -> (r: &'static str)
    ensures
        r@ == if state == PlayState::Play { "media-playback-pause-symbolic"@ } else { "media-playback-start-symbolic"@ },
{
    match state {
        PlayState::Play => "media-playback-pause-symbolic",
        PlayState::Pause | PlayState::Stop => "media-playback-start-symbolic",
    }
}

/// The command of a click on the play button, by the icon it shows; none for another icon.
pub fn play_button_command(icon: &str) -> (r: Option<PlayerCommand>)
    ensures
        icon@ == "media-playback-start-symbolic"@ ==> r == Some(PlayerCommand::Play),
        icon@ == "media-playback-pause-symbolic"@ ==> r == Some(PlayerCommand::Pause),
        icon@ != "media-playback-start-symbolic"@ && icon@ != "media-playback-pause-symbolic"@ ==> r is None,
{
    proof {
        reveal_strlit("media-playback-start-symbolic");
        reveal_strlit("media-playback-pause-symbolic");
        assert("media-playback-start-symbolic"@[15] != "media-playback-pause-symbolic"@[15]);
    }
    if crate::text::str_eq(icon, "media-playback-start-symbolic") {
        Some(PlayerCommand::Play)
    } else if crate::text::str_eq(icon, "media-playback-pause-symbolic") {
        Some(PlayerCommand::Pause)
    } else {
        None
    }
}

/// Whether the buttons that add shown items to the queue are offered: not when too many items
/// would go (`limit` or more of all items without active filters, of the shown items with).
pub fn queue_modifiers_allowed(active_filters: bool, all: usize, shown: usize, limit: usize) -> (r: bool)
    ensures
        r == !((!active_filters && all >= limit) || (active_filters && shown >= limit)),
{
    !((!active_filters && all >= limit) || (active_filters && shown >= limit))
}

/// The limit of tracks that the tracks view adds to the queue at once.
pub const TRACKS_QUEUE_LIMIT: usize = 1000;

/// The limit of albums that the albums view adds to the queue at once.
pub const ALBUMS_QUEUE_LIMIT: usize = 10;

/// The limit of artists that the artists view adds to the queue at once.
pub const ARTISTS_QUEUE_LIMIT: usize = 5;

/// The size of a new playlist above which its creation asks first.
pub const PLAYLIST_WARNING_SIZE: usize = 2000;

/// Whether creating a playlist of `len` songs asks first.
pub fn playlist_needs_warning(len: usize) -> (r: bool)
    ensures
        r == (len >= PLAYLIST_WARNING_SIZE),
{
    len >= PLAYLIST_WARNING_SIZE
}

/// What a press of "create playlist" in the tracks view does.
#[derive(Debug, Clone, Copy, PartialEq, Eq, Structural)]
pub enum CreateAction {
    /// Nothing is sent.
    Nothing,
    /// The playlist of the found tracks is created at once.
    Create,
    /// A warning asks first; the playlist is created only when the user goes on.
    AskFirst,
}

/// What a press of "create playlist" does, from the number of tracks shown and the number of
/// those found in the library: nothing when none is shown, a warning first when
/// `PLAYLIST_WARNING_SIZE` or more were found, the playlist at once otherwise.
pub fn create_playlist_action(shown: usize, found: usize) -> (r: CreateAction)
    ensures
        shown == 0 ==> r == CreateAction::Nothing,
        shown > 0 && found >= PLAYLIST_WARNING_SIZE ==> r == CreateAction::AskFirst,
        shown > 0 && found < PLAYLIST_WARNING_SIZE ==> r == CreateAction::Create,
{
    if shown == 0 {
        CreateAction::Nothing
    } else if playlist_needs_warning(found) {
        CreateAction::AskFirst
    } else {
        CreateAction::Create
    }
}

/// Which tracks the tracks view hands to the queue.
#[derive(Debug, Clone, Copy, PartialEq, Eq, Structural)]
pub enum QueueSource {
    /// None: filters are active and no track is shown.
    Nothing,
    /// The shown tracks, found in the library.
    Shown,
    /// Every track of the library.
    All,
}

/// Which tracks the tracks view hands to the queue when one of its queue buttons is pressed:
/// with active filters the shown tracks, or nothing when none is shown; without filters
/// every track.
pub fn tracks_queue_source(active_filters: bool, shown: usize) -> (r: QueueSource)
    ensures
        r == (if !active_filters { QueueSource::All } else if shown == 0 { QueueSource::Nothing } else { QueueSource::Shown }),
{
    if !active_filters {
        QueueSource::All
    } else if shown == 0 {
        QueueSource::Nothing
    } else {
        QueueSource::Shown
    }
}

/// What the albums or the artists view hands to the queue, one item after the other, when one
/// of its queue buttons is pressed: nothing when it shows nothing (`shown` counts the distinct
/// shown albums or artists), else each visible entry in order.
pub fn entries_to_queue<T>(shown: usize, visible: Vec<T>) -> (r: Vec<T>)
    ensures
        shown == 0 ==> r@ == Seq::<T>::empty(),
        shown > 0 ==> r@ == visible@,
{
    if shown == 0 {
        Vec::new()
    } else {
        visible
    }
}

/// The entry of the albums or the artists view that was clicked, by its index among the
/// visible entries; none when no entry is visible there.
pub fn clicked_entry(visible: &Vec<String>, index: u32) -> (r: Option<String>)
    ensures
        index < visible@.len() ==> (r matches Some(id) && id@ == visible@[index as int]@),
        index >= visible@.len() ==> r is None,
{
    let i = index as usize;
    if i < visible.len() {
        Some(visible[i].clone())
    } else {
        None
    }
}

/// What a favorite star marks: a song, an album or an artist.
#[derive(Debug, Clone, Copy, PartialEq, Eq, Structural)]
pub enum FavoriteKind {
    Song,
    Album,
    Artist,
}

/// What the server is asked when a favorite star is clicked: to star (or to unstar) the ids
/// listed, by kind.
#[derive(Debug)]
pub struct StarRequest {
    pub star: bool,
    pub songs: Vec<String>,
    pub albums: Vec<String>,
    pub artists: Vec<String>,
}

/// The request of a click on the star of `id`: star it when `state` is set, unstar it
/// otherwise, the id listed under its kind and the other lists empty.
pub fn star_request(kind: FavoriteKind, id: String, state: bool) -> (r: StarRequest)
    ensures
        r.star == state,
        r.songs@.len() == (if kind == FavoriteKind::Song { 1int } else { 0 }),
        r.albums@.len() == (if kind == FavoriteKind::Album { 1int } else { 0 }),
        r.artists@.len() == (if kind == FavoriteKind::Artist { 1int } else { 0 }),
        kind == FavoriteKind::Song ==> r.songs@[0] == id,
        kind == FavoriteKind::Album ==> r.albums@[0] == id,
        kind == FavoriteKind::Artist ==> r.artists@[0] == id,
{
    match kind {
        FavoriteKind::Song => StarRequest { star: state, songs: vec![id], albums: Vec::new(), artists: Vec::new() },
        FavoriteKind::Album => StarRequest { star: state, songs: Vec::new(), albums: vec![id], artists: Vec::new() },
        FavoriteKind::Artist => StarRequest { star: state, songs: Vec::new(), albums: Vec::new(), artists: vec![id] },
    }
}

/// The message shown when the server refused to star (or to unstar) an item of `kind`.
pub open spec fn star_failed_message(kind: FavoriteKind, e: Seq<char>) -> Seq<char> {
    match kind {
        FavoriteKind::Song => "could not star song: "@ + e,
        FavoriteKind::Album => "could not star album: "@ + e,
        FavoriteKind::Artist => "could not star artist: "@ + e,
    }
}

/// What follows the server's answer to a click on a favorite star.
#[derive(Debug)]
pub enum StarStep {
    /// The message to show; nothing else changes.
    Toast(String),
    /// The item is marked as a favorite (or not) in the library and in every view showing it.
    Update { id: String, state: bool },
}

/// What follows the server's answer to starring (or unstarring) `id`: on success the item is
/// marked so everywhere; on an error only the message is shown.
pub fn star_answered(kind: FavoriteKind, id: String, state: bool, answer: &Result<(), String>) -> (r: StarStep)
    ensures
        answer is Ok ==> r == (StarStep::Update { id, state }),
        answer matches Err(e) ==> (r matches StarStep::Toast(m) && m@ == star_failed_message(kind, e@)),
{
    match answer {
        Ok(()) => StarStep::Update { id, state },
        Err(e) => {
            let prefix = match kind {
                FavoriteKind::Song => "could not star song: ",
                FavoriteKind::Album => "could not star album: ",
                FavoriteKind::Artist => "could not star artist: ",
            };
            StarStep::Toast(crate::text::prefixed(prefix, e.as_str()))
        },
    }
}

/// A message to the play controls: the state to show, or which buttons can be pressed.
#[derive(Debug, Clone, Copy, PartialEq, Eq, Structural)]
pub enum PlayControlIn {
    NewState(PlayState),
    Disable,
    Enable,
    DisableNext(bool),
    DisablePrevious(bool),
}

/// What the play controls report: a command to the player.
#[derive(Debug, Clone, Copy, PartialEq, Eq, Structural)]
pub enum PlayControlOut {
    Player(PlayerCommand),
}

/// The state of the play controls: whether the play button shows "pause" (while playing),
/// which of the previous, play and next buttons can be pressed, and the shuffle and repeat
/// modes their buttons show.
#[derive(Debug, Clone, Copy, PartialEq, Eq, Structural)]
pub struct PlayControl {
    pub playing: bool,
    pub previous_sensitive: bool,
    pub play_sensitive: bool,
    pub next_sensitive: bool,
    pub shuffle: Shuffle,
    pub repeat: Repeat,
}

impl PlayControl {
    /// Controls showing `state`, every button pressable, and the given modes.
    pub fn new(state: PlayState, shuffle: Shuffle, repeat: Repeat) -> (r: PlayControl)
        ensures
            r == (PlayControl {
                playing: state == PlayState::Play,
                previous_sensitive: true,
                play_sensitive: true,
                next_sensitive: true,
                shuffle,
                repeat,
            }),
    {
        PlayControl {
            playing: state == PlayState::Play,
            previous_sensitive: true,
            play_sensitive: true,
            next_sensitive: true,
            shuffle,
            repeat,
        }
    }

    /// The icon name of the play button.
    pub fn play_icon(&self) -> (r: &'static str)
        ensures
            r@ == if self.playing { "media-playback-pause-symbolic"@ } else { "media-playback-start-symbolic"@ },
    {
        if self.playing {
            "media-playback-pause-symbolic"
        } else {
            "media-playback-start-symbolic"
        }
    }

    /// Handles a message: a new state sets the play button, "disable" and "enable" set the
    /// previous, play and next buttons, the other two set one button each.
    pub fn update(&mut self, msg: PlayControlIn)
        ensures
            final(self).shuffle == old(self).shuffle,
            final(self).repeat == old(self).repeat,
            *final(self) == match msg {
                PlayControlIn::NewState(s) => PlayControl { playing: s == PlayState::Play, ..*old(self) },
                PlayControlIn::Disable => PlayControl {
                    previous_sensitive: false,
                    play_sensitive: false,
                    next_sensitive: false,
                    ..*old(self)
                },
                PlayControlIn::Enable => PlayControl {
                    previous_sensitive: true,
                    play_sensitive: true,
                    next_sensitive: true,
                    ..*old(self)
                },
                PlayControlIn::DisableNext(b) => PlayControl { next_sensitive: b, ..*old(self) },
                PlayControlIn::DisablePrevious(b) => PlayControl { previous_sensitive: b, ..*old(self) },
            },
    {
        match msg {
            PlayControlIn::NewState(s) => self.playing = s == PlayState::Play,
            PlayControlIn::Disable => {
                self.previous_sensitive = false;
                self.play_sensitive = false;
                self.next_sensitive = false;
            },
            PlayControlIn::Enable => {
                self.previous_sensitive = true;
                self.play_sensitive = true;
                self.next_sensitive = true;
            },
            PlayControlIn::DisableNext(b) => self.next_sensitive = b,
            PlayControlIn::DisablePrevious(b) => self.previous_sensitive = b,
        }
    }

    /// A press of the play button: "pause" while it shows the pause icon, "play" otherwise.
    pub fn play_clicked(&self) -> (r: PlayControlOut)
        ensures
            r == PlayControlOut::Player(if self.playing { PlayerCommand::Pause } else { PlayerCommand::Play }),
    {
        let icon = self.play_icon();
        proof {
            reveal_strlit("media-playback-start-symbolic");
            reveal_strlit("media-playback-pause-symbolic");
            assert("media-playback-start-symbolic"@[15] != "media-playback-pause-symbolic"@[15]);
        }
        match play_button_command(icon) {
            Some(cmd) => PlayControlOut::Player(cmd),
            None => PlayControlOut::Player(PlayerCommand::Play),
        }
    }

    /// A press of the previous button.
    pub fn previous_clicked(&self) -> (r: PlayControlOut)
        ensures
            r == PlayControlOut::Player(PlayerCommand::Previous),
    {
        PlayControlOut::Player(PlayerCommand::Previous)
    }

    /// A press of the next button.
    pub fn next_clicked(&self) -> (r: PlayControlOut)
        ensures
            r == PlayControlOut::Player(PlayerCommand::Next),
    {
        PlayControlOut::Player(PlayerCommand::Next)
    }

    /// A press of the shuffle button: steps to the following mode and reports it.
    pub fn shuffle_clicked(&mut self) -> (r: PlayControlOut)
        ensures
            *final(self) == (PlayControl { shuffle: old(self).shuffle.following(), ..*old(self) }),
            r == PlayControlOut::Player(PlayerCommand::Shuffle(final(self).shuffle)),
    {
        self.shuffle.next();
        PlayControlOut::Player(PlayerCommand::Shuffle(self.shuffle))
    }

    /// A press of the repeat button: steps to the following mode and reports it.
    pub fn repeat_clicked(&mut self) -> (r: PlayControlOut)
        ensures
            *final(self) == (PlayControl { repeat: old(self).repeat.following(), ..*old(self) }),
            r == PlayControlOut::Player(PlayerCommand::Repeat(final(self).repeat)),
    {
        self.repeat.next();
        PlayControlOut::Player(PlayerCommand::Repeat(self.repeat))
    }
}

} // verus!
