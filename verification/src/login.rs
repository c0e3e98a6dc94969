//! Checking the login form: the server address and the messages of failed logins.
use vstd::prelude::*;
use vstd::string::*;

verus! {

/// The kinds of errors of `url::Url::parse` that the login form tells apart; `Other` stands
/// for every other kind.
#[derive(Debug, Clone, Copy, PartialEq, Eq, Structural)]
pub enum UrlErrorKind {
    EmptyHost,
    InvalidPort,
    InvalidIpv4Address,
    InvalidIpv6Address,
    InvalidDomainCharacter,
    Other,
}

/// An error of `url::Url::parse`: its kind and the text it displays.
#[derive(Debug)]
pub struct UrlError {
    pub kind: UrlErrorKind,
    pub description: String,
}

/// What `url::Url::parse` answers on a text: success, or the kind and the displayed text of
/// its error.
pub uninterp spec fn url_parse_outcome(input: Seq<char>) -> Result<(), (UrlErrorKind, Seq<char>)>;

/// Calls `url::Url::parse` and keeps of the result whether it parsed, and the kind and
/// displayed text of the error. The parser follows the URL standard, which takes pages to
/// state; the outcome is named.
#[verifier::external_body]
fn parse_url(input: &str) -> (r: Result<(), UrlError>)
    ensures
        url_parse_outcome(input@) == match r {
            Ok(()) => Ok(()),
            Err(e) => Err((e.kind, e.description@)),
        },
{
    match url::Url::parse(input) {
        Ok(_) => Ok(()),
        Err(e) => {
            let kind = match e {
                url::ParseError::EmptyHost => UrlErrorKind::EmptyHost,
                url::ParseError::InvalidPort => UrlErrorKind::InvalidPort,
                url::ParseError::InvalidIpv4Address => UrlErrorKind::InvalidIpv4Address,
                url::ParseError::InvalidIpv6Address => UrlErrorKind::InvalidIpv6Address,
                url::ParseError::InvalidDomainCharacter => UrlErrorKind::InvalidDomainCharacter,
                _ => UrlErrorKind::Other,
            };
            Err(UrlError { kind, description: format!("{e}") })
        },
    }
}

/// The message shown for an address that does not parse.
pub open spec fn uri_error_message(kind: UrlErrorKind, description: Seq<char>) -> Seq<char> {
    match kind {
        UrlErrorKind::EmptyHost => "Address is empty"@,
        UrlErrorKind::InvalidPort => "Port is invalid"@,
        UrlErrorKind::InvalidIpv4Address => "Invalid IPv4 address"@,
        UrlErrorKind::InvalidIpv6Address => "Invalid IPv6 address"@,
        UrlErrorKind::InvalidDomainCharacter => "Address contains invalid character"@,
        _ => "Address is invalid: "@ + description,
    }
}

/// The message for an error of the address.
pub fn uri_error_text(e: &UrlError) -> (r: String)
    ensures
        r@ == uri_error_message(e.kind, e.description@),
{
    match e.kind {
        UrlErrorKind::EmptyHost => String::from_str("Address is empty"),
        UrlErrorKind::InvalidPort => String::from_str("Port is invalid"),
        UrlErrorKind::InvalidIpv4Address => String::from_str("Invalid IPv4 address"),
        UrlErrorKind::InvalidIpv6Address => String::from_str("Invalid IPv6 address"),
        UrlErrorKind::InvalidDomainCharacter => String::from_str("Address contains invalid character"),
        _ => {
            let mut s = String::from_str("Address is invalid: ");
            s.append(e.description.as_str());
            s
        },
    }
}

/// Checks a changed address: none when it parses, the message to show otherwise.
pub fn uri_changed(uri: &str) -> (r: Option<String>)
    ensures
        r is None <==> url_parse_outcome(uri@) is Ok,
        r matches Some(m) ==> url_parse_outcome(uri@) matches Err(e) && m@ == uri_error_message(e.0, e.1),
{
    match parse_url(uri) {
        Ok(()) => None,
        Err(e) => Some(uri_error_text(&e)),
    }
}

/// Whether the login button is offered: a user, a password, and an address that parses.
pub fn login_sensitive(user: &str, password: &str, uri: &str) -> (r: bool)
    ensures
        r == (user@.len() > 0 && password@.len() > 0 && url_parse_outcome(uri@) is Ok),
{
    let user_len = user.unicode_len();
    let password_len = password.unicode_len();
    user_len > 0 && password_len > 0 && parse_url(uri).is_ok()
}

/// Why a login failed, as the Subsonic client reports it.
#[derive(Debug)]
pub enum LoginFailure {
    /// The server could not be reached.
    Connection,
    /// No Subsonic server answered.
    NoServerFound,
    /// The server refused the login.
    Server,
    /// Another error, with the text it displays.
    Other(String),
}

/// The message shown for a failed login.
pub open spec fn login_error_message(f: LoginFailure) -> Seq<char> {
    match f {
        LoginFailure::Connection => "Connection error. Is the address valid?"@,
        LoginFailure::NoServerFound => "Subsonic server not found. Is the address correct"@,
        LoginFailure::Server => "Username or password is wrong"@,
        LoginFailure::Other(t) => "Login error: "@ + t@,
    }
}

/// The message for a failed login.
pub fn login_error_text(f: &LoginFailure) -> (r: String)
    ensures
        r@ == login_error_message(*f),
{
    match f {
        LoginFailure::Connection => String::from_str("Connection error. Is the address valid?"),
        LoginFailure::NoServerFound => String::from_str("Subsonic server not found. Is the address correct"),
        LoginFailure::Server => String::from_str("Username or password is wrong"),
        LoginFailure::Other(t) => {
            let mut s = String::from_str("Login error: ");
            s.append(t.as_str());
            s
        },
    }
}

/// A message to the login form: one of its buttons was pressed, or one of its entries changed.
#[derive(Debug, Clone, Copy, PartialEq, Eq, Structural)]
pub enum LoginFormIn {
    AuthClicked,
    UriChanged,
    FormChanged,
    ResetClicked,
}

/// What the login form reports: the login succeeded.
#[derive(Debug, Clone, Copy, PartialEq, Eq, Structural)]
pub enum LoginFormOut {
    LoggedIn,
}

/// What the login form does on a message.
#[derive(Debug)]
pub enum LoginFormAction {
    /// Sends a login request with the texts of the entries.
    Authenticate,
    /// Marks the address entry: valid when none, with this message otherwise.
    MarkUri(Option<String>),
    /// Makes the login button pressable or not.
    SetLoginSensitive(bool),
    /// Empties the entries and forgets the stored login.
    Reset,
}

/// The login form.
#[derive(Debug, Default, Clone)]
pub struct LoginForm {}

/// What a login stores of the user: the name, the hash of the password and the salt it was
/// hashed with.
#[derive(Debug)]
pub struct Credentials {
    pub user: String,
    pub hash: String,
    pub salt: String,
}

/// The lowercase hexadecimal MD5 digest of the password followed by the salt, as the Subsonic
/// token is formed.
pub uninterp spec fn password_hash(password: Seq<char>, salt: Seq<char>) -> Seq<char>;

/// Whether `c` is an ASCII letter or digit.
pub open spec fn is_alphanumeric(c: char) -> bool {
    ('a' <= c <= 'z') || ('A' <= c <= 'Z') || ('0' <= c <= '9')
}

/// Whether `c` is a lowercase hexadecimal digit.
pub open spec fn is_lower_hex(c: char) -> bool {
    ('a' <= c <= 'f') || ('0' <= c <= '9')
}

/// Calls `submarine::auth::AuthBuilder::new(user, "0.16.1").client_name("Bouy").hashed(password)`
/// and keeps the user, hash and salt of the result. Its source draws a salt of 24 random ASCII
/// letters and digits and hashes the password followed by the salt with MD5, written as 32
/// lowercase hexadecimal digits; the salt itself is left open.
#[verifier::external_body]
fn hash_password(user: &str, password: &str) -> (r: Credentials)
    ensures
        r.user@ == user@,
        r.salt@.len() == 24,
        forall|i: int| 0 <= i < 24 ==> is_alphanumeric(#[trigger] r.salt@[i]),
        r.hash@ == password_hash(password@, r.salt@),
        r.hash@.len() == 32,
        forall|i: int| 0 <= i < 32 ==> is_lower_hex(#[trigger] r.hash@[i]),
{
    let auth = submarine::auth::AuthBuilder::new(user, "0.16.1").client_name("Bouy").hashed(password);
    Credentials { user: auth.user, hash: auth.hash, salt: auth.salt }
}

impl LoginForm {
    /// What the form does on `msg`, given the texts of its user, password and address entries.
    pub fn update(msg: LoginFormIn, user: &str, password: &str, uri: &str) -> (r: LoginFormAction)
        ensures
            msg == LoginFormIn::AuthClicked ==> r is Authenticate,
            msg == LoginFormIn::ResetClicked ==> r is Reset,
            msg == LoginFormIn::FormChanged ==> r == LoginFormAction::SetLoginSensitive(
                user@.len() > 0 && password@.len() > 0 && url_parse_outcome(uri@) is Ok,
            ),
            msg == LoginFormIn::UriChanged ==> (r matches LoginFormAction::MarkUri(m) && (m is None <==> url_parse_outcome(
                uri@,
            ) is Ok) && (m matches Some(t) ==> url_parse_outcome(uri@) matches Err(e) && t@ == uri_error_message(
                e.0,
                e.1,
            ))),
    {
        match msg {
            LoginFormIn::AuthClicked => LoginFormAction::Authenticate,
            LoginFormIn::ResetClicked => LoginFormAction::Reset,
            LoginFormIn::FormChanged => LoginFormAction::SetLoginSensitive(login_sensitive(user, password, uri)),
            LoginFormIn::UriChanged => LoginFormAction::MarkUri(uri_changed(uri)),
        }
    }

    /// The credentials of a login with `user` and `password`: the password is stored only as
    /// its hash with a fresh random salt.
    pub fn credentials(user: &str, password: &str) -> (r: Credentials)
        ensures
            r.user@ == user@,
            r.salt@.len() == 24,
            forall|i: int| 0 <= i < 24 ==> is_alphanumeric(#[trigger] r.salt@[i]),
            r.hash@ == password_hash(password@, r.salt@),
            r.hash@.len() == 32,
    {
        hash_password(user, password)
    }

    /// What the form does with the answer to its login request: reports the login, or gives
    /// the message of the failure to show.
    pub fn auth_answered(answer: Result<(), LoginFailure>) -> (r: Result<LoginFormOut, String>)
        ensures
            answer is Ok <==> r == Ok::<LoginFormOut, String>(LoginFormOut::LoggedIn),
            answer matches Err(f) ==> r matches Err(m) && m@ == login_error_message(f),
    {
        match answer {
            Ok(()) => Ok(LoginFormOut::LoggedIn),
            Err(f) => Err(login_error_text(&f)),
        }
    }
}

/// A message to the login window: what its form reported.
#[derive(Debug, Clone, Copy, PartialEq, Eq, Structural)]
pub enum LoginWindowIn {
    LoginForm(LoginFormOut),
}

/// What the login window reports: the login succeeded (the window closes).
#[derive(Debug, Clone, Copy, PartialEq, Eq, Structural)]
pub enum LoginWindowOut {
    LoggedIn,
}

/// What the login window reports on `msg`.
pub fn login_window_output(msg: LoginWindowIn) -> (r: LoginWindowOut)
    ensures
        r == LoginWindowOut::LoggedIn,
{
    match msg {
        LoginWindowIn::LoginForm(LoginFormOut::LoggedIn) => LoginWindowOut::LoggedIn,
    }
}

} // verus!
