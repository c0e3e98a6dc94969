//! Names of the pages of the stacks that the views switch between, and their parsing.
use vstd::prelude::*;
use vstd::string::*;
use crate::text::str_eq;

verus! {

/// `"` + `value` + `"` + `rest`: the quoted text of an error.
pub open spec fn quoted_error(value: Seq<char>, rest: Seq<char>) -> Seq<char> {
    seq!['"'] + value + seq!['"'] + rest
}

fn quoted(value: &str, rest: &str) -> (r: String)
    ensures
        r@ == quoted_error(value@, rest@),
{
    proof { reveal_strlit("\""); }
    let mut s = String::from_str("\"");
    s.append(value);
    s.append("\"");
    s.append(rest);
    proof {
        assert(s@ =~= quoted_error(value@, rest@));
    }
    s
}

/// The state of a playlist element: normal, being renamed, or asking whether to delete it.
#[derive(Debug, Clone, Copy, PartialEq, Eq, Structural)]
pub enum State {
    DeleteInProgress,
    Edit,
    Normal,
}

/// The page names of `State`.
pub open spec fn state_name(s: State) -> Seq<char> {
    match s {
        State::DeleteInProgress => "Delete dialog"@,
        State::Edit => "Editing"@,
        State::Normal => "Normal"@,
    }
}

impl State {
    /// The page name.
    pub fn to_string(&self) -> (r: String)
        ensures
            r@ == state_name(*self),
    {
        match self {
            State::DeleteInProgress => String::from_str("Delete dialog"),
            State::Edit => String::from_str("Editing"),
            State::Normal => String::from_str("Normal"),
        }
    }

    /// The state named `value`; an error that quotes `value` otherwise.
    pub fn try_from(value: String) -> (r: Result<State, String>)
        ensures
            r matches Ok(s) ==> state_name(s) == value@,
            r is Err <==> forall|s: State| state_name(s) != value@,
            r matches Err(e) ==> e@ == quoted_error(value@, " is not a State"@),
    {
        let v = value.as_str();
        if str_eq(v, "Delete dialog") {
            proof { assert(state_name(State::DeleteInProgress) == value@); }
            Ok(State::DeleteInProgress)
        } else if str_eq(v, "Editing") {
            proof { assert(state_name(State::Edit) == value@); }
            Ok(State::Edit)
        } else if str_eq(v, "Normal") {
            proof { assert(state_name(State::Normal) == value@); }
            Ok(State::Normal)
        } else {
            proof {
                assert forall|s: State| state_name(s) != value@ by {
                    match s {
                        State::DeleteInProgress => {},
                        State::Edit => {},
                        State::Normal => {},
                    }
                }
            }
            Err(quoted(v, " is not a State"))
        }
    }
}

/// Whether the edit buttons of a playlist element show.
#[derive(Debug, Clone, Copy, PartialEq, Eq, Structural)]
pub enum EditState {
    NotActive,
    Active,
}

/// The page names of `EditState`.
pub open spec fn edit_state_name(s: EditState) -> Seq<char> {
    match s {
        EditState::NotActive => "NotActive"@,
        EditState::Active => "Active"@,
    }
}

impl EditState {
    /// The page name.
    pub fn to_string(&self) -> (r: String)
        ensures
            r@ == edit_state_name(*self),
    {
        match self {
            EditState::NotActive => String::from_str("NotActive"),
            EditState::Active => String::from_str("Active"),
        }
    }

    /// The state named `value`; an error that quotes `value` otherwise.
    pub fn try_from(value: String) -> (r: Result<EditState, String>)
        ensures
            r matches Ok(s) ==> edit_state_name(s) == value@,
            r is Err <==> forall|s: EditState| edit_state_name(s) != value@,
            r matches Err(e) ==> e@ == quoted_error(value@, " is not a EditState"@),
    {
        let v = value.as_str();
        if str_eq(v, "NotActive") {
            proof { assert(edit_state_name(EditState::NotActive) == value@); }
            Ok(EditState::NotActive)
        } else if str_eq(v, "Active") {
            proof { assert(edit_state_name(EditState::Active) == value@); }
            Ok(EditState::Active)
        } else {
            proof {
                assert forall|s: EditState| edit_state_name(s) != value@ by {
                    match s {
                        EditState::NotActive => {},
                        EditState::Active => {},
                    }
                }
            }
            Err(quoted(v, " is not a EditState"))
        }
    }
}

/// What the playlists view shows in place of tracks: the tracks, or a placeholder.
#[derive(Debug, Clone, Copy, PartialEq, Eq, Structural)]
pub enum TracksState {
    Tracks,
    Stock,
}

/// The page names of `TracksState`.
pub open spec fn tracks_state_name(s: TracksState) -> Seq<char> {
    match s {
        TracksState::Tracks => "Tracks"@,
        TracksState::Stock => "Stock"@,
    }
}

impl TracksState {
    /// The page name.
    pub fn to_string(&self) -> (r: String)
        ensures
            r@ == tracks_state_name(*self),
    {
        match self {
            TracksState::Tracks => String::from_str("Tracks"),
            TracksState::Stock => String::from_str("Stock"),
        }
    }

    /// The state named `value`; an error that quotes `value` otherwise.
    pub fn try_from(value: String) -> (r: Result<TracksState, String>)
        ensures
            r matches Ok(s) ==> tracks_state_name(s) == value@,
            r is Err <==> forall|s: TracksState| tracks_state_name(s) != value@,
            r matches Err(e) ==> e@ == quoted_error(value@, " is not a State"@),
    {
        let v = value.as_str();
        if str_eq(v, "Tracks") {
            proof { assert(tracks_state_name(TracksState::Tracks) == value@); }
            Ok(TracksState::Tracks)
        } else if str_eq(v, "Stock") {
            proof { assert(tracks_state_name(TracksState::Stock) == value@); }
            Ok(TracksState::Stock)
        } else {
            proof {
                assert forall|s: TracksState| tracks_state_name(s) != value@ by {
                    match s {
                        TracksState::Tracks => {},
                        TracksState::Stock => {},
                    }
                }
            }
            Err(quoted(v, " is not a State"))
        }
    }
}

/// What the queue shows: a placeholder when empty, the songs otherwise.
#[derive(Debug, Clone, Copy, PartialEq, Eq, Structural)]
pub enum QueueStack {
    Placeholder,
    Queue,
}

/// The page names of `QueueStack`.
pub open spec fn queue_stack_name(s: QueueStack) -> Seq<char> {
    match s {
        QueueStack::Placeholder => "Placeholder"@,
        QueueStack::Queue => "Queue"@,
    }
}

impl QueueStack {
    /// The page name.
    pub fn to_string(&self) -> (r: String)
        ensures
            r@ == queue_stack_name(*self),
    {
        match self {
            QueueStack::Placeholder => String::from_str("Placeholder"),
            QueueStack::Queue => String::from_str("Queue"),
        }
    }

    /// The page named `value`; an error that names `value` otherwise.
    pub fn try_from(value: String) -> (r: Result<QueueStack, String>)
        ensures
            r matches Ok(s) ==> queue_stack_name(s) == value@,
            r is Err <==> forall|s: QueueStack| queue_stack_name(s) != value@,
            r matches Err(e) ==> e@ == value@ + " does not match a QueueStack"@,
    {
        let v = value.as_str();
        if str_eq(v, "Placeholder") {
            proof { assert(queue_stack_name(QueueStack::Placeholder) == value@); }
            Ok(QueueStack::Placeholder)
        } else if str_eq(v, "Queue") {
            proof { assert(queue_stack_name(QueueStack::Queue) == value@); }
            Ok(QueueStack::Queue)
        } else {
            proof {
                assert forall|s: QueueStack| queue_stack_name(s) != value@ by {
                    match s {
                        QueueStack::Placeholder => {},
                        QueueStack::Queue => {},
                    }
                }
            }
            let mut e = String::from_str(v);
            e.append(" does not match a QueueStack");
            Err(e)
        }
    }
}

/// What the main window shows.
#[derive(Debug, Clone, Copy, PartialEq, Eq, Structural)]
pub enum Content {
    Loading,
    Login,
    App,
    NoConnection,
}

/// The page names of `Content`.
pub open spec fn content_name(s: Content) -> Seq<char> {
    match s {
        Content::Loading => "Loading"@,
        Content::Login => "Login"@,
        Content::App => "App"@,
        Content::NoConnection => "NoConnection"@,
    }
}

impl Content {
    /// The page name.
    pub fn to_string(&self) -> (r: String)
        ensures
            r@ == content_name(*self),
    {
        match self {
            Content::Loading => String::from_str("Loading"),
            Content::Login => String::from_str("Login"),
            Content::App => String::from_str("App"),
            Content::NoConnection => String::from_str("NoConnection"),
        }
    }

    /// The page named `value`; an error that quotes `value` otherwise.
    pub fn try_from(value: String) -> (r: Result<Content, String>)
        ensures
            r matches Ok(s) ==> content_name(s) == value@,
            r is Err <==> forall|s: Content| content_name(s) != value@,
            r matches Err(e) ==> e@ == quoted_error(value@, " is not a valid Content"@),
    {
        let v = value.as_str();
        if str_eq(v, "Loading") {
            proof { assert(content_name(Content::Loading) == value@); }
            Ok(Content::Loading)
        } else if str_eq(v, "Login") {
            proof { assert(content_name(Content::Login) == value@); }
            Ok(Content::Login)
        } else if str_eq(v, "App") {
            proof { assert(content_name(Content::App) == value@); }
            Ok(Content::App)
        } else if str_eq(v, "NoConnection") {
            proof { assert(content_name(Content::NoConnection) == value@); }
            Ok(Content::NoConnection)
        } else {
            proof {
                assert forall|s: Content| content_name(s) != value@ by {
                    match s {
                        Content::Loading => {},
                        Content::Login => {},
                        Content::App => {},
                        Content::NoConnection => {},
                    }
                }
            }
            Err(quoted(v, " is not a valid Content"))
        }
    }
}

/// The page names of each stack tell their pages apart, so parsing a page's name gives the
/// page back.
pub proof fn law_page_names_distinct()
    ensures
        forall|a: State, b: State| state_name(a) == state_name(b) ==> a == b,
        forall|a: EditState, b: EditState| edit_state_name(a) == edit_state_name(b) ==> a == b,
        forall|a: TracksState, b: TracksState| tracks_state_name(a) == tracks_state_name(b) ==> a == b,
        forall|a: QueueStack, b: QueueStack| queue_stack_name(a) == queue_stack_name(b) ==> a == b,
        forall|a: Content, b: Content| content_name(a) == content_name(b) ==> a == b,
{
    reveal_strlit("Delete dialog");
    reveal_strlit("Editing");
    reveal_strlit("Normal");
    reveal_strlit("NotActive");
    reveal_strlit("Active");
    reveal_strlit("Tracks");
    reveal_strlit("Stock");
    reveal_strlit("Placeholder");
    reveal_strlit("Queue");
    reveal_strlit("Loading");
    reveal_strlit("Login");
    reveal_strlit("App");
    reveal_strlit("NoConnection");
    assert("Delete dialog"@.len() != "Editing"@.len());
    assert("Delete dialog"@.len() != "Normal"@.len());
    assert("Editing"@.len() != "Normal"@.len());
    assert("NotActive"@.len() != "Active"@.len());
    assert("Tracks"@.len() != "Stock"@.len());
    assert("Placeholder"@.len() != "Queue"@.len());
    assert("Loading"@.len() != "Login"@.len());
    assert("Loading"@.len() != "App"@.len());
    assert("Loading"@.len() != "NoConnection"@.len());
    assert("Login"@.len() != "App"@.len());
    assert("Login"@.len() != "NoConnection"@.len());
    assert("App"@.len() != "NoConnection"@.len());
}

/// Reading back the page name of a state gives the state: what `try_from` answers on the name
/// that `to_string` gives.
pub proof fn law_state_round_trip(s: State, name: Seq<char>, r: State)
    requires
        name == state_name(s),
        state_name(r) == name,
    ensures
        r == s,
{
    law_page_names_distinct();
}

/// Reading back the page name of an edit state gives the edit state.
pub proof fn law_edit_state_round_trip(s: EditState, r: EditState)
    requires
        edit_state_name(r) == edit_state_name(s),
    ensures
        r == s,
{
    law_page_names_distinct();
}

/// Reading back the page name of a tracks state gives the tracks state.
pub proof fn law_tracks_state_round_trip(s: TracksState, r: TracksState)
    requires
        tracks_state_name(r) == tracks_state_name(s),
    ensures
        r == s,
{
    law_page_names_distinct();
}

/// Reading back the page name of the queue stack gives the page.
pub proof fn law_queue_stack_round_trip(s: QueueStack, r: QueueStack)
    requires
        queue_stack_name(r) == queue_stack_name(s),
    ensures
        r == s,
{
    law_page_names_distinct();
}

/// Reading back the page name of the main window's content gives the content.
pub proof fn law_content_round_trip(s: Content, r: Content)
    requires
        content_name(r) == content_name(s),
    ensures
        r == s,
{
    law_page_names_distinct();
}

/// What the app reports to the main window.
#[derive(Debug)]
pub enum AppOut {
    Logout,
    Reload,
    DisplayToast(String),
}

/// What the main window does: shows a content page, or a message.
#[derive(Debug)]
pub enum MainWindowStep {
    Show(Content),
    Toast(String),
}

/// The content the main window shows at start and when a login is retried: the login form
/// without a stored login, the app when the server accepts the stored login, the screen of a
/// missing connection otherwise.
pub fn startup_content(login_set: bool, login_valid: bool) -> (r: Content)
    ensures
        r == if !login_set {
            Content::Login
        } else if login_valid {
            Content::App
        } else {
            Content::NoConnection
        },
{
    if !login_set {
        Content::Login
    } else if login_valid {
        Content::App
    } else {
        Content::NoConnection
    }
}

/// What the main window does on a report of the app: the login form after a logout, the app
/// anew after a reload, and the message of a toast.
pub fn app_report(out: AppOut) -> (r: MainWindowStep)
    ensures
        match out {
            AppOut::Logout => r matches MainWindowStep::Show(Content::Login),
            AppOut::Reload => r matches MainWindowStep::Show(Content::App),
            AppOut::DisplayToast(t) => r matches MainWindowStep::Toast(u) && u == t,
        },
{
    match out {
        AppOut::Logout => MainWindowStep::Show(Content::Login),
        AppOut::Reload => MainWindowStep::Show(Content::App),
        AppOut::DisplayToast(t) => MainWindowStep::Toast(t),
    }
}

} // verus!
