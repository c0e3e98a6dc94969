//! Translation of user-visible texts through gettext.
use vstd::prelude::*;

verus! {

/// Whether a text holds no NUL character (gettext takes C strings).
pub open spec fn no_nul(s: Seq<char>) -> bool {
    forall|i: int| 0 <= i < s.len() ==> s[i] != '\0'
}

/// Calls `gettextrs::gettext`: the translation of `msgid` in the current locale and text
/// domain. What comes back depends on the environment, so nothing is stated of it; a message
/// id with a NUL character makes it panic and is left out. It also panics when the translation
/// found is not UTF-8, which depends on the installed catalogs and is not stated.
#[verifier::external_body]
pub(crate) fn gettext(msgid: &str) -> (r: String)
    requires
        no_nul(msgid@),
{
    gettextrs::gettext(msgid)
}

} // verus!
