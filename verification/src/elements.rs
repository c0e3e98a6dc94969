//! The album and artist elements of the grids: their favorite mark, what they report, and
//! the tooltip of an album.
use vstd::prelude::*;
use vstd::string::*;
use crate::common::{convert_for_label, opt_view};
use crate::i18n::gettext;
use crate::info::duration_label;
use crate::text::{i64_to_string, signed_decimal};
use crate::widgets::DescriptiveCoverOut;

verus! {

/// The icon name of a favorite button.
pub open spec fn star_icon(starred: bool) -> Seq<char> {
    if starred {
        "starred-symbolic"@
    } else {
        "non-starred-symbolic"@
    }
}

/// The favorite mark of an element: whether it is starred (its button shows the starred icon
/// and its ribbon shows), and whether its favorite button shows (while the pointer is over
/// the element).
#[derive(Debug, Clone, Copy, PartialEq, Eq, Structural)]
pub struct FavoriteMark {
    pub starred: bool,
    pub button_visible: bool,
}

impl FavoriteMark {
    /// The icon name of the favorite button.
    pub fn icon(&self) -> (r: &'static str)
        ensures
            r@ == star_icon(self.starred),
    {
        if self.starred {
            "starred-symbolic"
        } else {
            "non-starred-symbolic"
        }
    }
}

/// A message to an album element.
#[derive(Debug)]
pub enum AlbumElementIn {
    DescriptiveCover(DescriptiveCoverOut),
    Favorited(String, bool),
    Hover(bool),
    FavoriteClicked,
    Clicked,
}

/// What an album element reports: it was clicked (with the album's id), its favorite button
/// asks to star or unstar the album, or a message to show.
#[derive(Debug)]
pub enum AlbumElementOut {
    Clicked(String),
    FavoriteClicked(String, bool),
    DisplayToast(String),
}

/// An album element: the album's id and its favorite mark.
#[derive(Debug)]
pub struct AlbumElement {
    pub id: String,
    pub mark: FavoriteMark,
}

impl AlbumElement {
    /// Handles a message: a new favorite state of its album marks it; the pointer shows or
    /// hides the favorite button; a press of the favorite button asks for the other state;
    /// a click and the cover's messages are reported.
    pub fn update(&mut self, msg: AlbumElementIn) -> (r: Option<AlbumElementOut>)
        ensures
            final(self).id == old(self).id,
            match msg {
                AlbumElementIn::DescriptiveCover(DescriptiveCoverOut::DisplayToast(t)) => *final(self) == *old(self)
                    && (r matches Some(AlbumElementOut::DisplayToast(u)) && u == t),
                AlbumElementIn::Favorited(id, state) => r is None && final(self).mark == if id@ == old(self).id@ {
                    FavoriteMark { starred: state, ..old(self).mark }
                } else {
                    old(self).mark
                },
                AlbumElementIn::Hover(h) => r is None && final(self).mark == FavoriteMark {
                    button_visible: h,
                    ..old(self).mark
                },
                AlbumElementIn::FavoriteClicked => final(self).mark == old(self).mark && (r matches Some(
                    AlbumElementOut::FavoriteClicked(id, state),
                ) && id@ == old(self).id@ && state == !old(self).mark.starred),
                AlbumElementIn::Clicked => final(self).mark == old(self).mark && (r matches Some(
                    AlbumElementOut::Clicked(id),
                ) && id@ == old(self).id@),
            },
    {
        match msg {
            AlbumElementIn::DescriptiveCover(DescriptiveCoverOut::DisplayToast(t)) => Some(AlbumElementOut::DisplayToast(t)),
            AlbumElementIn::Favorited(id, state) => {
                if crate::text::str_eq(id.as_str(), self.id.as_str()) {
                    self.mark.starred = state;
                }
                None
            },
            AlbumElementIn::Hover(h) => {
                self.mark.button_visible = h;
                None
            },
            AlbumElementIn::FavoriteClicked => Some(AlbumElementOut::FavoriteClicked(self.id.clone(), !self.mark.starred)),
            AlbumElementIn::Clicked => Some(AlbumElementOut::Clicked(self.id.clone())),
        }
    }
}

/// A message to an artist element.
#[derive(Debug)]
pub enum ArtistElementIn {
    DescriptiveCover(DescriptiveCoverOut),
    Favorited(String, bool),
    Hover(bool),
}

/// What an artist element reports from its messages: a message to show.
#[derive(Debug)]
pub enum ArtistElementOut {
    DisplayToast(String),
}

/// An artist element: the artist's id and its favorite mark.
#[derive(Debug)]
pub struct ArtistElement {
    pub id: String,
    pub mark: FavoriteMark,
}

impl ArtistElement {
    /// Handles a message: a new favorite state of its artist marks it; the pointer shows or
    /// hides the favorite button; the cover's messages are reported.
    pub fn update(&mut self, msg: ArtistElementIn) -> (r: Option<ArtistElementOut>)
        ensures
            final(self).id == old(self).id,
            match msg {
                ArtistElementIn::DescriptiveCover(DescriptiveCoverOut::DisplayToast(t)) => *final(self) == *old(self)
                    && (r matches Some(ArtistElementOut::DisplayToast(u)) && u == t),
                ArtistElementIn::Favorited(id, state) => r is None && final(self).mark == if id@ == old(self).id@ {
                    FavoriteMark { starred: state, ..old(self).mark }
                } else {
                    old(self).mark
                },
                ArtistElementIn::Hover(h) => r is None && final(self).mark == FavoriteMark {
                    button_visible: h,
                    ..old(self).mark
                },
            },
    {
        match msg {
            ArtistElementIn::DescriptiveCover(DescriptiveCoverOut::DisplayToast(t)) => Some(ArtistElementOut::DisplayToast(t)),
            ArtistElementIn::Favorited(id, state) => {
                if crate::text::str_eq(id.as_str(), self.id.as_str()) {
                    self.mark.starred = state;
                }
                None
            },
            ArtistElementIn::Hover(h) => {
                self.mark.button_visible = h;
                None
            },
        }
    }
}

/// The tooltip of an album element, from the translated words: its name and artist, then on
/// a new line its year and its length, each when known.
pub open spec fn album_tooltip(
    name: Seq<char>,
    artist: Option<Seq<char>>,
    year: Option<i32>,
    duration: Option<i32>,
    year_word: Seq<char>,
    length_word: Seq<char>,
) -> Seq<char> {
    let head = match artist {
        Some(a) => name + " - "@ + a,
        None => name,
    };
    let with_year = match year {
        Some(y) => head + seq!['\n'] + year_word + ": "@ + signed_decimal(y as int),
        None => head + seq!['\n'],
    };
    match duration {
        Some(d) => with_year + " • "@ + length_word + ": "@ + duration_label(d as int),
        None => with_year,
    }
}

/// The tooltip of an album element, from the translated words.
pub fn album_tooltip_with(
    name: &str,
    artist: Option<&str>,
    year: Option<i32>,
    duration: Option<i32>,
    year_word: &str,
    length_word: &str,
) -> (r: String)
    ensures
        r@ == album_tooltip(name@, opt_view(artist), year, duration, year_word@, length_word@),
{
    proof {
        reveal_strlit("\n");
    }
    let mut s = String::from_str(name);
    if let Some(a) = artist {
        s.append(" - ");
        s.append(a);
    }
    let ghost head = s@;
    s.append("\n");
    if let Some(y) = year {
        s.append(year_word);
        s.append(": ");
        let t = i64_to_string(y as i64);
        s.append(t.as_str());
    }
    proof {
        let with_year = match year {
            Some(y) => head + seq!['\n'] + year_word@ + ": "@ + signed_decimal(y as int),
            None => head + seq!['\n'],
        };
        assert(s@ =~= with_year);
    }
    let ghost with_year = s@;
    if let Some(d) = duration {
        s.append(" • ");
        s.append(length_word);
        s.append(": ");
        let label = convert_for_label((d as i64) * 1000);
        s.append(label.as_str());
        proof {
            assert(s@ =~= with_year + " • "@ + length_word@ + ": "@ + duration_label(d as int));
        }
    }
    s
}

/// The tooltip of an album element, in the language of the user.
pub fn album_tooltip_text(name: &str, artist: Option<&str>, year: Option<i32>, duration: Option<i32>) -> (r: String)
    ensures
        exists|a: Seq<char>, b: Seq<char>| r@ == album_tooltip(name@, opt_view(artist), year, duration, a, b),
{
    proof {
        reveal_strlit("Year");
        reveal_strlit("Length");
    }
    let year_word = gettext("Year");
    let length_word = gettext("Length");
    album_tooltip_with(name, artist, year, duration, year_word.as_str(), length_word.as_str())
}

} // verus!
