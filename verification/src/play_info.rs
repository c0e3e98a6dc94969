//! The label of the song playing, and what the play info reports.
use vstd::prelude::*;
use vstd::string::*;
use crate::i18n::gettext;
use crate::widgets::CoverOut;

verus! {

/// A name shown in the play info, already escaped for markup, and the link it opens, if any.
#[derive(Debug)]
pub struct LinkedName {
    pub text: String,
    pub link: Option<String>,
}

/// What the play info shows of the song playing: its title (escaped for markup), its artist
/// and album, and the id of its cover.
#[derive(Debug)]
pub struct PlayInfoSong {
    pub title: String,
    pub artist: Option<LinkedName>,
    pub album: Option<LinkedName>,
    pub cover_art: Option<String>,
}

/// The markup of a name: a link around it when it has one.
pub open spec fn linked(n: LinkedName) -> Seq<char> {
    match n.link {
        None => n.text@,
        Some(href) => "<a href=\""@ + href@ + "\">"@ + n.text@ + "</a>"@,
    }
}

/// The markup of an emphasized name.
pub open spec fn emphasized(n: LinkedName) -> Seq<char> {
    "<span font_size=\"large\" style=\"italic\" weight=\"bold\">"@ + linked(n) + "</span>"@
}

/// The label of the song playing, from the translated words: the title, large; then on a new
/// line "by" and the artist; then "on" and the album. A missing artist or album leaves a line
/// break in its place; with no song playing the label says so.
pub open spec fn play_info_label(song: Option<PlayInfoSong>, nothing: Seq<char>, by: Seq<char>, on: Seq<char>) -> Seq<char> {
    match song {
        None => nothing,
        Some(s) => {
            let title = "<span font_size=\"xx-large\" weight=\"bold\">"@ + s.title@ + "</span>"@;
            let artist = match s.artist {
                None => seq!['\n'],
                Some(a) => seq!['\n'] + by + seq![' '] + emphasized(a),
            };
            let album = match s.album {
                None => seq!['\n'],
                Some(a) => seq![' '] + on + seq![' '] + emphasized(a),
            };
            title + artist + album
        },
    }
}

fn push_linked(s: &mut String, n: &LinkedName)
    ensures
        final(s)@ == old(s)@ + linked(*n),
{
    match &n.link {
        None => s.append(n.text.as_str()),
        Some(href) => {
            s.append("<a href=\"");
            s.append(href.as_str());
            s.append("\">");
            s.append(n.text.as_str());
            s.append("</a>");
            proof {
                assert(s@ =~= old(s)@ + linked(*n));
            }
        },
    }
}

fn push_emphasized(s: &mut String, n: &LinkedName)
    ensures
        final(s)@ == old(s)@ + emphasized(*n),
{
    s.append("<span font_size=\"large\" style=\"italic\" weight=\"bold\">");
    push_linked(s, n);
    s.append("</span>");
    proof {
        assert(s@ =~= old(s)@ + emphasized(*n));
    }
}

/// The label of the song playing, from the translated words.
pub fn play_info_label_with(song: &Option<PlayInfoSong>, nothing: &str, by: &str, on: &str) -> (r: String)
    ensures
        r@ == play_info_label(*song, nothing@, by@, on@),
{
    match song {
        None => String::from_str(nothing),
        Some(info) => {
            proof {
                reveal_strlit("\n");
                reveal_strlit(" ");
            }
            let mut s = String::from_str("<span font_size=\"xx-large\" weight=\"bold\">");
            s.append(info.title.as_str());
            s.append("</span>");
            let ghost title = s@;
            match &info.artist {
                None => s.append("\n"),
                Some(a) => {
                    s.append("\n");
                    s.append(by);
                    s.append(" ");
                    push_emphasized(&mut s, a);
                },
            }
            let ghost with_artist = s@;
            proof {
                let artist = match &info.artist {
                    None => seq!['\n'],
                    Some(a) => seq!['\n'] + by@ + seq![' '] + emphasized(*a),
                };
                assert(with_artist =~= title + artist);
            }
            match &info.album {
                None => s.append("\n"),
                Some(a) => {
                    s.append(" ");
                    s.append(on);
                    s.append(" ");
                    push_emphasized(&mut s, a);
                },
            }
            proof {
                let album = match &info.album {
                    None => seq!['\n'],
                    Some(a) => seq![' '] + on@ + seq![' '] + emphasized(*a),
                };
                assert(s@ =~= with_artist + album);
            }
            s
        },
    }
}

/// The label of the song playing, in the language of the user.
pub fn play_info_markup(song: &Option<PlayInfoSong>) -> (r: String)
    ensures
        exists|a: Seq<char>, b: Seq<char>, c: Seq<char>| r@ == play_info_label(*song, a, b, c),
{
    proof {
        reveal_strlit("Nothing is playing");
        reveal_strlit("by");
        reveal_strlit("on");
    }
    let nothing = gettext("Nothing is playing");
    let by = gettext("by");
    let on = gettext("on");
    play_info_label_with(song, nothing.as_str(), by.as_str(), on.as_str())
}

/// What the play info reports: a message to show, or that the cover with this id was clicked.
#[derive(Debug)]
pub enum PlayInfoOut {
    DisplayToast(String),
    CoverClicked(String),
}

/// What a click on the cover reports: the id of the cover of the song playing, when it has
/// one.
pub fn cover_clicked(song: &Option<PlayInfoSong>) -> (r: Option<PlayInfoOut>)
    ensures
        match *song {
            Some(s) => match s.cover_art {
                Some(id) => r matches Some(PlayInfoOut::CoverClicked(c)) && c@ == id@,
                None => r is None,
            },
            None => r is None,
        },
{
    match song {
        Some(s) => match &s.cover_art {
            Some(id) => Some(PlayInfoOut::CoverClicked(id.clone())),
            None => None,
        },
        None => None,
    }
}

/// What a message of the cover makes the play info report: its toast is passed on.
pub fn cover_message(msg: CoverOut) -> (r: PlayInfoOut)
    ensures
        match msg {
            CoverOut::DisplayToast(t) => r matches PlayInfoOut::DisplayToast(u) && u == t,
        },
{
    match msg {
        CoverOut::DisplayToast(t) => PlayInfoOut::DisplayToast(t),
    }
}

/// The body of the desktop notification of a song: its title, then on a new line its artist,
/// or the translated word for an unknown artist.
pub open spec fn notification_body_text(title: Seq<char>, artist: Option<Seq<char>>, unknown: Seq<char>) -> Seq<char> {
    title + seq!['\n'] + match artist {
        Some(a) => a,
        None => unknown,
    }
}

/// The body of the desktop notification of a song, from the word for an unknown artist.
pub fn notification_body_with(title: &str, artist: Option<&str>, unknown: &str) -> (r: String)
    ensures
        r@ == notification_body_text(title@, crate::common::opt_view(artist), unknown@),
{
    proof {
        reveal_strlit("\n");
    }
    let mut s = String::from_str(title);
    s.append("\n");
    match artist {
        Some(a) => s.append(a),
        None => s.append(unknown),
    }
    s
}

/// The body of the desktop notification of a song, in the language of the user.
pub fn notification_body(title: &str, artist: Option<&str>) -> (r: String)
    ensures
        exists|u: Seq<char>| r@ == notification_body_text(title@, crate::common::opt_view(artist), u),
{
    proof {
        reveal_strlit("Unkonwn Artist");
    }
    let unknown = gettext("Unkonwn Artist");
    notification_body_with(title, artist, unknown.as_str())
}

/// Whether a song that starts playing is announced by a desktop notification: when
/// notifications are on, no window of the application is active, and the song has a cover.
pub fn should_notify(enabled: bool, window_active: bool, has_cover: bool) -> (r: bool)
    ensures
        r == (enabled && !window_active && has_cover),
{
    enabled && !window_active && has_cover
}

} // verus!
