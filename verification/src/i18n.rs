//! Message translation through the GNU gettext catalogs.

use vstd::prelude::*;

verus! {

/// `s` holds no NUL character, so it can be handed to the C library.
pub open spec fn nul_free(s: Seq<char>) -> bool {
    forall|i: int| 0 <= i < s.len() ==> s[i] != '\0'
}

/// Calls `gettextrs::gettext`: the translation of `msgid` in the current
/// text domain and locale, or `msgid` itself where the catalogs have none.
/// Which comes back depends on the process's locale and on the catalogs
/// installed, so nothing is promised of the text. `gettext` panics on a
/// `msgid` holding a NUL character, which `requires` rules out, and on a
/// translation that is not UTF-8, which depends on the installed catalog and
/// on no argument.
#[verifier::external_body]
pub(crate) fn translate(msgid: &str) -> String
    requires
        nul_free(msgid@),
{
    gettextrs::gettext(msgid)
}

} // verus!
