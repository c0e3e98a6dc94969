//! The state of small widgets: the seek bar, a described cover, the volume button.
use vstd::prelude::*;
use vstd::string::*;
use crate::common::{convert_for_label, time_label};
use crate::text::str_eq;
use crate::queue::PlayState;

verus! {

/// Where playback stands when the seek bar is created: the length of the song and the
/// position, in milliseconds.
#[derive(Debug)]
pub struct SeekbarCurrent {
    pub total_in_ms: i64,
    pub seek_in_ms: Option<i64>,
}

impl SeekbarCurrent {
    /// Where playback stands.
    pub fn new(total_in_ms: i64, seek_in_ms: Option<i64>) -> (r: Self)
        ensures
            r.total_in_ms == total_in_ms,
            r.seek_in_ms == seek_in_ms,
    {
        SeekbarCurrent { total_in_ms, seek_in_ms }
    }
}

/// What the window shows when it opens, from the stored queue: the play state of the controls,
/// the seek bar, and the index of the song shown as playing.
#[derive(Debug)]
pub struct Startup {
    pub state: PlayState,
    pub seekbar: Option<SeekbarCurrent>,
    pub current_song: Option<usize>,
}

/// The stored duration, in seconds, of the current song of the stored queue, if any.
pub open spec fn stored_duration(durations: Seq<Option<i32>>, current: Option<usize>) -> Option<i32> {
    match current {
        Some(i) => if i < durations.len() { durations[i as int] } else { None },
        None => None,
    }
}

/// What the window shows when it opens, from the stored queue (the stored duration of each
/// song, in seconds, where known) and the stored index of the current song: the controls stand
/// paused when an index is stored and stopped otherwise; the song shown is the one at that
/// index, when the queue holds it; the seek bar starts at the start of that song, with its
/// length, when the length is known, and is left unset otherwise.
pub fn startup_state(durations: &Vec<Option<i32>>, current: Option<usize>) -> (r: Startup)
    ensures
        r.state == (if current is Some { PlayState::Pause } else { PlayState::Stop }),
        r.current_song == (match current {
            Some(i) => if i < durations@.len() { Some(i) } else { None },
            None => None,
        }),
        stored_duration(durations@, current) matches Some(d) ==> (r.seekbar matches Some(b)
            && b.total_in_ms == d * 1000 && b.seek_in_ms is None),
        stored_duration(durations@, current) is None ==> r.seekbar is None,
{
    let state = match current {
        Some(_) => PlayState::Pause,
        None => PlayState::Stop,
    };
    let mut current_song: Option<usize> = None;
    let mut seekbar: Option<SeekbarCurrent> = None;
    if let Some(i) = current {
        if i < durations.len() {
            current_song = Some(i);
            if let Some(d) = durations[i] {
                seekbar = Some(SeekbarCurrent::new(d as i64 * 1000, None));
            }
        }
    }
    Startup { state, seekbar, current_song }
}

/// What the seek bar reports: it was dragged to this position, in milliseconds.
#[derive(Debug, Clone, Copy, PartialEq, Eq, Structural)]
pub enum SeekbarOut {
    SeekDragged(i64),
}

/// The label the seek bar shows for a span of milliseconds.
pub open spec fn label_of(ms: int) -> Seq<char> {
    match time_label(ms) {
        Some(l) => l,
        None => "-1"@,
    }
}

/// The state of the seek bar, in milliseconds.
#[derive(Debug)]
pub struct Seekbar {
    pub current: i64,
    pub total: i64,
    pub sensitive: bool,
}

impl Seekbar {
    /// A seek bar set from where playback stands, if known; at zero otherwise.
    pub fn new(init: Option<SeekbarCurrent>) -> (r: Seekbar)
        ensures
            match init {
                Some(c) => r.total == c.total_in_ms && r.current == (match c.seek_in_ms {
                    Some(s) => s,
                    None => 0,
                }),
                None => r.total == 0 && r.current == 0,
            },
            r.sensitive,
    {
        match init {
            Some(c) => Seekbar {
                current: match c.seek_in_ms {
                    Some(s) => s,
                    None => 0,
                },
                total: c.total_in_ms,
                sensitive: true,
            },
            None => Seekbar { current: 0, total: 0, sensitive: true },
        }
    }

    /// The length of the song.
    pub fn length(&self) -> (r: i64)
        ensures
            r == self.total,
    {
        self.total
    }

    /// The bar was dragged to `ms`; reports the position to seek to.
    pub fn dragged(&mut self, ms: i64) -> (r: SeekbarOut)
        ensures
            final(self).current == ms,
            final(self).total == old(self).total,
            final(self).sensitive == old(self).sensitive,
            r == SeekbarOut::SeekDragged(ms),
    {
        self.current = ms;
        SeekbarOut::SeekDragged(ms)
    }

    /// The label of the position.
    pub fn current_label(&self) -> (r: String)
        ensures
            r@ == label_of(self.current as int),
    {
        convert_for_label(self.current)
    }

    /// The label of the length of the song.
    pub fn total_label(&self) -> (r: String)
        ensures
            r@ == label_of(self.total as int),
    {
        convert_for_label(self.total)
    }

    /// A new song of length `total` starts: the bar becomes sensitive.
    pub fn new_range(&mut self, total: i64)
        ensures
            final(self).total == total,
            final(self).current == old(self).current,
            final(self).sensitive,
    {
        self.sensitive = true;
        self.total = total;
    }

    /// Playback reached `ms`.
    pub fn seek_to(&mut self, ms: i64)
        ensures
            final(self).current == ms,
            final(self).total == old(self).total,
            final(self).sensitive == old(self).sensitive,
    {
        self.current = ms;
    }

    /// Playback stopped: the bar is insensitive.
    pub fn disable(&mut self)
        ensures
            final(self).current == old(self).current,
            final(self).total == old(self).total,
            !final(self).sensitive,
    {
        self.sensitive = false;
    }
}

/// What a described cover is created with: a cover id, a title, and an optional subtitle.
#[derive(Debug, Default, Clone)]
pub struct DescriptiveCoverInit {
    pub cover_id: Option<String>,
    pub title: String,
    pub subtitle: Option<String>,
}

impl DescriptiveCoverInit {
    /// The parts of a described cover.
    pub fn new(title: String, cover_id: Option<String>, subtitle: Option<String>) -> (r: Self)
        ensures
            r.title == title,
            r.cover_id == cover_id,
            r.subtitle == subtitle,
    {
        DescriptiveCoverInit { cover_id, title, subtitle }
    }
}

/// The texts of a described cover, and whether its subtitle shows.
#[derive(Debug)]
pub struct DescriptiveCover {
    pub title: String,
    pub subtitle: Option<String>,
    pub subtitle_visible: bool,
}

impl DescriptiveCover {
    /// The texts given at creation; the subtitle shows when there is one.
    pub fn new(init: DescriptiveCoverInit) -> (r: Self)
        ensures
            r.title == init.title,
            r.subtitle == init.subtitle,
            r.subtitle_visible == init.subtitle is Some,
    {
        let visible = init.subtitle.is_some();
        DescriptiveCover { title: init.title, subtitle: init.subtitle, subtitle_visible: visible }
    }

    /// A new title; none gives an empty one.
    pub fn set_title(&mut self, title: Option<String>)
        ensures
            match title {
                Some(t) => final(self).title == t,
                None => final(self).title@ == Seq::<char>::empty(),
            },
            final(self).subtitle == old(self).subtitle,
            final(self).subtitle_visible == old(self).subtitle_visible,
    {
        self.title = match title {
            Some(t) => t,
            None => String::new(),
        };
    }

    /// A new subtitle; none hides the subtitle.
    pub fn set_subtitle(&mut self, subtitle: Option<String>)
        ensures
            final(self).subtitle == subtitle,
            final(self).title == old(self).title,
            final(self).subtitle_visible == (old(self).subtitle_visible && subtitle is Some),
    {
        if subtitle.is_none() {
            self.subtitle_visible = false;
        }
        self.subtitle = subtitle;
    }
    /// Handles a message: a new title or subtitle, or a message of the cover, whose toasts are
    /// passed on.
    pub fn update(&mut self, msg: DescriptiveCoverIn) -> (r: Option<DescriptiveCoverOut>)
        ensures
            match msg {
                DescriptiveCoverIn::SetTitle(t) => r is None && match t {
                    Some(t) => final(self).title == t,
                    None => final(self).title@ == Seq::<char>::empty(),
                } && final(self).subtitle == old(self).subtitle && final(self).subtitle_visible == old(self).subtitle_visible,
                DescriptiveCoverIn::SetSubtitle(s) => r is None && final(self).subtitle == s
                    && final(self).title == old(self).title
                    && final(self).subtitle_visible == (old(self).subtitle_visible && s is Some),
                DescriptiveCoverIn::Cover(CoverOut::DisplayToast(t)) => r == Some(DescriptiveCoverOut::DisplayToast(t))
                    && *final(self) == *old(self),
            },
    {
        match msg {
            DescriptiveCoverIn::SetTitle(t) => {
                self.set_title(t);
                None
            },
            DescriptiveCoverIn::SetSubtitle(s) => {
                self.set_subtitle(s);
                None
            },
            DescriptiveCoverIn::Cover(CoverOut::DisplayToast(t)) => Some(DescriptiveCoverOut::DisplayToast(t)),
        }
    }
}

/// What a cover reports: a message to show.
#[derive(Debug)]
pub enum CoverOut {
    DisplayToast(String),
}

/// A message to a described cover.
#[derive(Debug)]
pub enum DescriptiveCoverIn {
    SetTitle(Option<String>),
    SetSubtitle(Option<String>),
    Cover(CoverOut),
}

/// What a described cover reports: a message to show.
#[derive(Debug)]
pub enum DescriptiveCoverOut {
    DisplayToast(String),
}

/// The look of the volume button, with the icon name it shows.
#[derive(Debug, Clone, PartialEq, Eq)]
pub enum ButtonState {
    Mute(String),
    Low(String),
    Medium(String),
    High(String),
}

impl ButtonState {
    /// The icon name.
    pub fn as_str(&self) -> (r: &str)
        ensures
            r@ == match self {
                ButtonState::Mute(s) | ButtonState::Low(s) | ButtonState::Medium(s) | ButtonState::High(s) => s@,
            },
    {
        match self {
            ButtonState::Mute(s) | ButtonState::Low(s) | ButtonState::Medium(s) | ButtonState::High(s) => s.as_str(),
        }
    }
}

/// A look of the volume button as values: its kind (muted, low, medium, high in this order)
/// and its icon name.
pub open spec fn button_state_view(b: ButtonState) -> (nat, Seq<char>) {
    match b {
        ButtonState::Mute(s) => (0nat, s@),
        ButtonState::Low(s) => (1nat, s@),
        ButtonState::Medium(s) => (2nat, s@),
        ButtonState::High(s) => (3nat, s@),
    }
}

impl ButtonState {
    /// A copy of the look.
    pub fn duplicate(&self) -> (r: ButtonState)
        ensures
            button_state_view(r) == button_state_view(*self),
    {
        match self {
            ButtonState::Mute(s) => ButtonState::Mute(s.clone()),
            ButtonState::Low(s) => ButtonState::Low(s.clone()),
            ButtonState::Medium(s) => ButtonState::Medium(s.clone()),
            ButtonState::High(s) => ButtonState::High(s.clone()),
        }
    }

    /// Whether two looks are the same: the same kind and the same icon name.
    pub fn same_as(&self, other: &ButtonState) -> (r: bool)
        ensures
            r == (button_state_view(*self) == button_state_view(*other)),
    {
        match (self, other) {
            (ButtonState::Mute(a), ButtonState::Mute(b)) => str_eq(a.as_str(), b.as_str()),
            (ButtonState::Low(a), ButtonState::Low(b)) => str_eq(a.as_str(), b.as_str()),
            (ButtonState::Medium(a), ButtonState::Medium(b)) => str_eq(a.as_str(), b.as_str()),
            (ButtonState::High(a), ButtonState::High(b)) => str_eq(a.as_str(), b.as_str()),
            _ => false,
        }
    }
}

/// The volume button: the look it shows.
#[derive(Debug)]
pub struct VolumeButton {
    pub button_state: ButtonState,
}

/// What the volume button reports: it changed its look.
#[derive(Debug)]
pub enum VolumeButtonOut {
    ButtonStateChangedTo(ButtonState),
}

impl VolumeButton {
    /// A button showing `state`, and the report of that look.
    pub fn new(state: ButtonState) -> (r: (VolumeButton, VolumeButtonOut))
        ensures
            button_state_view(r.0.button_state) == button_state_view(state),
            r.1 matches VolumeButtonOut::ButtonStateChangedTo(s) && button_state_view(s) == button_state_view(state),
    {
        let out = VolumeButtonOut::ButtonStateChangedTo(state.duplicate());
        (VolumeButton { button_state: state }, out)
    }

    /// Takes the look that fits the volume now set: when it differs from the look shown, the
    /// button shows it and reports it; otherwise nothing changes.
    pub fn check_button_state(&mut self, state: ButtonState) -> (r: Option<VolumeButtonOut>)
        ensures
            button_state_view(state) == button_state_view(old(self).button_state) ==> r is None
                && button_state_view(final(self).button_state) == button_state_view(old(self).button_state),
            button_state_view(state) != button_state_view(old(self).button_state) ==> button_state_view(final(self).button_state)
                == button_state_view(state) && (r matches Some(VolumeButtonOut::ButtonStateChangedTo(s))
                && button_state_view(s) == button_state_view(state)),
    {
        if state.same_as(&self.button_state) {
            None
        } else {
            let out = VolumeButtonOut::ButtonStateChangedTo(state.duplicate());
            self.button_state = state;
            Some(out)
        }
    }
}

} // verus!
