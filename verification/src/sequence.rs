//! Buttons that step through a fixed cycle of modes: repeat and shuffle.
use vstd::prelude::*;
use vstd::string::*;
use crate::text::str_eq;

verus! {

/// A mode that a sequence button steps through.
pub trait Sequence: Sized {
    /// The icon name shown for the mode.
    spec fn icon(&self) -> Seq<char>;

    /// The mode that follows this one.
    spec fn following(&self) -> Self;

    /// The tooltip shown for the mode.
    spec fn tooltip_text(&self) -> Option<Seq<char>>;

    /// Returns the icon name.
    fn current(&self) -> (r: &'static str)
        ensures
            r@ == self.icon(),
    ;

    /// Switches to the following mode.
    fn next(&mut self)
        ensures
            *final(self) == old(self).following(),
    ;

    /// Returns the tooltip to display.
    fn tooltip(&self) -> (r: Option<&'static str>)
        ensures
            r is None <==> self.tooltip_text() is None,
            r matches Some(t) ==> self.tooltip_text() == Some(t@),
    ;
}

/// How the queue repeats.
#[derive(Debug, Clone, Copy, PartialEq, Eq, Structural)]
pub enum Repeat {
    Normal,
    One,
    All,
}

impl Default for Repeat {
    fn default() -> (r: Self)
        ensures
            r == Repeat::Normal,
    {
        Repeat::Normal
    }
}

/// Icon names of the repeat modes.
pub open spec fn repeat_icon(r: Repeat) -> Seq<char> {
    match r {
        Repeat::Normal => "media-playlist-no-repeat-symbolic"@,
        Repeat::One => "media-playlist-repeat-song"@,
        Repeat::All => "media-playlist-repeat-symbolic"@,
    }
}

/// Names of the repeat modes in the MPRIS interface.
pub open spec fn repeat_mpris(r: Repeat) -> Seq<char> {
    match r {
        Repeat::Normal => "None"@,
        Repeat::One => "Track"@,
        Repeat::All => "Playlist"@,
    }
}

impl Sequence for Repeat {
    open spec fn icon(&self) -> Seq<char> {
        repeat_icon(*self)
    }

    open spec fn following(&self) -> Self {
        match *self {
            Repeat::Normal => Repeat::One,
            Repeat::One => Repeat::All,
            Repeat::All => Repeat::Normal,
        }
    }

    open spec fn tooltip_text(&self) -> Option<Seq<char>> {
        match *self {
            Repeat::Normal => Some("no repeat"@),
            Repeat::One => Some("repeat current song"@),
            Repeat::All => Some("repeat queue"@),
        }
    }

    fn current(&self) -> (r: &'static str) {
        match self {
            Repeat::Normal => "media-playlist-no-repeat-symbolic",
            Repeat::One => "media-playlist-repeat-song",
            Repeat::All => "media-playlist-repeat-symbolic",
        }
    }

    fn next(&mut self) {
        *self = match self {
            Repeat::Normal => Repeat::One,
            Repeat::One => Repeat::All,
            Repeat::All => Repeat::Normal,
        };
    }

    fn tooltip(&self) -> (r: Option<&'static str>) {
        match self {
            Repeat::Normal => Some("no repeat"),
            Repeat::One => Some("repeat current song"),
            Repeat::All => Some("repeat queue"),
        }
    }
}

impl Repeat {
    /// The name of the mode in the MPRIS interface.
    pub fn to_mpris_string(&self) -> (r: String)
        ensures
            r@ == repeat_mpris(*self),
    {
        match self {
            Repeat::Normal => String::from_str("None"),
            Repeat::One => String::from_str("Track"),
            Repeat::All => String::from_str("Playlist"),
        }
    }

    /// The mode named by an MPRIS loop status: `Track` and `Playlist` name their modes,
    /// anything else (`None` among it) gives `Normal`.
    pub fn from_mpris_string(value: &str) -> (r: Repeat)
        ensures
            r == (if value@ == "Track"@ {
                Repeat::One
            } else if value@ == "Playlist"@ {
                Repeat::All
            } else {
                Repeat::Normal
            }),
    {
        if str_eq(value, "Track") {
            Repeat::One
        } else if str_eq(value, "Playlist") {
            Repeat::All
        } else {
            Repeat::Normal
        }
    }

    /// The mode whose icon name is `icon`, if there is one.
    pub fn from_icon_name(icon: &str) -> (r: Option<Repeat>)
        ensures
            r matches Some(x) ==> repeat_icon(x) == icon@,
            r is None ==> forall|x: Repeat| repeat_icon(x) != icon@,
    {
        if str_eq(icon, "media-playlist-no-repeat-symbolic") {
            Some(Repeat::Normal)
        } else if str_eq(icon, "media-playlist-repeat-song") {
            Some(Repeat::One)
        } else if str_eq(icon, "media-playlist-repeat-symbolic") {
            Some(Repeat::All)
        } else {
            proof {
                assert forall|x: Repeat| repeat_icon(x) != icon@ by {
                    match x {
                        Repeat::Normal => {},
                        Repeat::One => {},
                        Repeat::All => {},
                    }
                }
            }
            None
        }
    }
}

/// Whether the queue is played in order or at random.
#[derive(Debug, Clone, Copy, PartialEq, Eq, Structural)]
pub enum Shuffle {
    Sequential,
    Shuffle,
}

impl Default for Shuffle {
    fn default() -> (r: Self)
        ensures
            r == Shuffle::Sequential,
    {
        Shuffle::Sequential
    }
}

/// Icon names of the shuffle modes.
pub open spec fn shuffle_icon(s: Shuffle) -> Seq<char> {
    match s {
        Shuffle::Sequential => "media-playlist-consecutive-symbolic"@,
        Shuffle::Shuffle => "media-playlist-shuffle-symbolic"@,
    }
}

impl Sequence for Shuffle {
    open spec fn icon(&self) -> Seq<char> {
        shuffle_icon(*self)
    }

    open spec fn following(&self) -> Self {
        match *self {
            Shuffle::Sequential => Shuffle::Shuffle,
            Shuffle::Shuffle => Shuffle::Sequential,
        }
    }

    open spec fn tooltip_text(&self) -> Option<Seq<char>> {
        match *self {
            Shuffle::Sequential => Some("sequential order"@),
            Shuffle::Shuffle => Some("random order"@),
        }
    }

    fn current(&self) -> (r: &'static str) {
        match self {
            Shuffle::Sequential => "media-playlist-consecutive-symbolic",
            Shuffle::Shuffle => "media-playlist-shuffle-symbolic",
        }
    }

    fn next(&mut self) {
        *self = match self {
            Shuffle::Sequential => Shuffle::Shuffle,
            Shuffle::Shuffle => Shuffle::Sequential,
        };
    }

    fn tooltip(&self) -> (r: Option<&'static str>) {
        match self {
            Shuffle::Sequential => Some("sequential order"),
            Shuffle::Shuffle => Some("random order"),
        }
    }
}

impl Shuffle {
    /// The mode whose icon name is `icon`, if there is one.
    pub fn from_icon_name(icon: &str) -> (r: Option<Shuffle>)
        ensures
            r matches Some(x) ==> shuffle_icon(x) == icon@,
            r is None ==> forall|x: Shuffle| shuffle_icon(x) != icon@,
    {
        if str_eq(icon, "media-playlist-consecutive-symbolic") {
            Some(Shuffle::Sequential)
        } else if str_eq(icon, "media-playlist-shuffle-symbolic") {
            Some(Shuffle::Shuffle)
        } else {
            proof {
                assert forall|x: Shuffle| shuffle_icon(x) != icon@ by {
                    match x {
                        Shuffle::Sequential => {},
                        Shuffle::Shuffle => {},
                    }
                }
            }
            None
        }
    }
}

/// The state of a button that changes its icon when pressed.
pub struct SequenceButton<T: Sequence + Copy> {
    sequence: T,
}

impl<T: Sequence + Copy> SequenceButton<T> {
    /// The mode shown by the button.
    pub closed spec fn mode(&self) -> T {
        self.sequence
    }

    /// A button showing `init`.
    pub fn new(init: T) -> (r: Self)
        ensures
            r.mode() == init,
    {
        SequenceButton { sequence: init }
    }

    /// The mode shown.
    pub fn current(&self) -> (r: &T)
        ensures
            *r == self.mode(),
    {
        &self.sequence
    }

    /// A press: steps to the following mode and returns it, as the button reports it.
    pub fn toggle(&mut self) -> (r: T)
        ensures
            final(self).mode() == old(self).mode().following(),
            r == final(self).mode(),
    {
        self.sequence.next();
        self.sequence
    }

    /// Shows `sequence` without reporting a press.
    pub fn set_to(&mut self, sequence: T)
        ensures
            final(self).mode() == sequence,
    {
        self.sequence = sequence;
    }

    /// Handles a message: a press steps to the following mode and reports it; setting a mode
    /// shows it and reports nothing.
    pub fn update(&mut self, msg: SequenceButtonIn<T>) -> (r: Option<SequenceButtonOut<T>>)
        ensures
            match msg {
                SequenceButtonIn::Toggle => final(self).mode() == old(self).mode().following()
                    && r == Some(SequenceButtonOut::Clicked(final(self).mode())),
                SequenceButtonIn::SetTo(t) => final(self).mode() == t && r is None,
            },
    {
        match msg {
            SequenceButtonIn::Toggle => {
                let t = self.toggle();
                Some(SequenceButtonOut::Clicked(t))
            },
            SequenceButtonIn::SetTo(t) => {
                self.set_to(t);
                None
            },
        }
    }
}

/// A message to a sequence button: a press, or a mode to show.
#[derive(Debug, Clone, Copy)]
pub enum SequenceButtonIn<T: Sequence + Copy> {
    Toggle,
    SetTo(T),
}

/// What a sequence button reports: it was pressed and now shows this mode.
#[derive(Debug, Clone, Copy)]
pub enum SequenceButtonOut<T: Sequence + Copy> {
    Clicked(T),
}

/// Three steps of the repeat button come back to the mode it started from.
pub proof fn law_repeat_cycle(r: Repeat)
    ensures
        r.following().following().following() == r,
        r.following() != r,
{
}

/// Two steps of the shuffle button come back to the mode it started from.
pub proof fn law_shuffle_cycle(s: Shuffle)
    ensures
        s.following().following() == s,
        s.following() != s,
{
}

/// Reading back the MPRIS name of a repeat mode gives the mode.
pub proof fn law_repeat_mpris_round_trip(r: Repeat)
    ensures
        (if repeat_mpris(r) == "Track"@ {
            Repeat::One
        } else if repeat_mpris(r) == "Playlist"@ {
            Repeat::All
        } else {
            Repeat::Normal
        }) == r,
{
    reveal_strlit("None");
    reveal_strlit("Track");
    reveal_strlit("Playlist");
    assert("None"@.len() != "Track"@.len());
    assert("None"@.len() != "Playlist"@.len());
    assert("Track"@.len() != "Playlist"@.len());
}

/// Distinct repeat modes have distinct icons, and distinct shuffle modes too.
pub proof fn law_icons_distinct(a: Repeat, b: Repeat, c: Shuffle, d: Shuffle)
    ensures
        a != b ==> repeat_icon(a) != repeat_icon(b),
        c != d ==> shuffle_icon(c) != shuffle_icon(d),
{
    reveal_strlit("media-playlist-no-repeat-symbolic");
    reveal_strlit("media-playlist-repeat-song");
    reveal_strlit("media-playlist-repeat-symbolic");
    reveal_strlit("media-playlist-consecutive-symbolic");
    reveal_strlit("media-playlist-shuffle-symbolic");
    assert("media-playlist-no-repeat-symbolic"@[15] != "media-playlist-repeat-song"@[15]);
    assert("media-playlist-no-repeat-symbolic"@[15] != "media-playlist-repeat-symbolic"@[15]);
    assert("media-playlist-repeat-song"@.len() != "media-playlist-repeat-symbolic"@.len());
    assert("media-playlist-consecutive-symbolic"@[15] != "media-playlist-shuffle-symbolic"@[15]);
}

/// The mode named by the icon a button shows is the mode shown: what `from_icon_name` finds
/// for the icon of a mode is that mode.
pub proof fn law_icon_round_trip(a: Repeat, found: Repeat, c: Shuffle, found_c: Shuffle)
    requires
        repeat_icon(found) == repeat_icon(a),
        shuffle_icon(found_c) == shuffle_icon(c),
    ensures
        found == a,
        found_c == c,
{
    law_icons_distinct(a, found, c, found_c);
}

} // verus!
