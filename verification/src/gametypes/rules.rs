use vstd::prelude::*;
use vstd::std_specs::iter::IteratorSpec;

verus! {

broadcast use vstd::string::group_string_axioms;

/// The version of the application that this broker belongs to.
pub const APP_MAJOR: usize = 1;

pub const APP_MINOR: usize = 1;

pub const APP_REVISION: usize = 1;

/// The number of bytes that a user name or an e-mail address must stay below.
pub const MAX_NAME_LENGTH: usize = 64;

/// The number of bytes that a password must stay below.
pub const MAX_PASSWORD_LENGTH: usize = 128;

/// The number of sprites that a new player can choose from.
pub const SPRITE_COUNT: u8 = 6;

/// The number of characters of a reconnect code.
pub const RECONNECT_CODE_LENGTH: usize = 32;

/// Whether a client of the given version is turned away: it is, where each of
/// the three parts of its version is below that of the broker.
pub open spec fn client_outdated(major: usize, minor: usize, revision: usize) -> bool {
    APP_MAJOR > major && APP_MINOR > minor && APP_REVISION > revision
}

/// Whether a client of the given version is turned away.
pub fn is_client_outdated(major: usize, minor: usize, revision: usize) -> (r: bool)
    ensures
        r == client_outdated(major, minor, revision),
{
    APP_MAJOR > major && APP_MINOR > minor && APP_REVISION > revision
}

/// Whether `c` may stand in a user name: a letter or a digit of ASCII, or
/// one of `!`, `$`, `&`, `_` and `~`.
pub open spec fn name_char(c: char) -> bool {
    ('a' <= c && c <= 'z') || ('A' <= c && c <= 'Z') || ('0' <= c && c <= '9') || c == '!' || c
        == '$' || c == '&' || c == '_' || c == '~'
}

/// Whether `c` may stand in a password: whatever may stand in a user name,
/// or one of `%`, `*`, `+`, `-`, `?` and `@`.
pub open spec fn password_char(c: char) -> bool {
    name_char(c) || c == '%' || c == '*' || c == '+' || c == '-' || c == '?' || c == '@'
}

/// Whether `c` may stand in a user name.
#[verifier::when_used_as_spec(name_char)]
pub fn is_name_acceptable(c: char) -> (r: bool)
    ensures
        r == name_char(c),
{
    ('a' <= c && c <= 'z') || ('A' <= c && c <= 'Z') || ('0' <= c && c <= '9') || c == '!' || c
        == '$' || c == '&' || c == '_' || c == '~'
}

/// Whether `c` may stand in a password.
#[verifier::when_used_as_spec(password_char)]
pub fn is_password_acceptable(c: char) -> (r: bool)
    ensures
        r == password_char(c),
{
    is_name_acceptable(c) || c == '%' || c == '*' || c == '+' || c == '-' || c == '?' || c == '@'
}

/// Every character of `text` may stand in a user name.
pub open spec fn name_chars(text: Seq<char>) -> bool {
    forall|i: int| 0 <= i < text.len() ==> name_char(#[trigger] text[i])
}

/// Every character of `text` may stand in a password.
pub open spec fn password_chars(text: Seq<char>) -> bool {
    forall|i: int| 0 <= i < text.len() ==> password_char(#[trigger] text[i])
}

/// Whether every character of `text` may stand in a user name.
pub fn all_name_acceptable(text: &str) -> (r: bool)
    ensures
        r == name_chars(text@),
{
    let mut rest = text.chars();
    let ghost mut seen: int = 0;
    loop
        invariant
            0 <= seen <= text@.len(),
            IteratorSpec::remaining(&rest) == text@.skip(seen),
            forall|i: int| 0 <= i < seen ==> name_char(#[trigger] text@[i]),
        decreases text@.len() - seen,
    {
        match rest.next() {
            Some(c) => {
                assert(c == text@.skip(seen)[0]);
                assert(text@.skip(seen).drop_first() =~= text@.skip(seen + 1));
                if !is_name_acceptable(c) {
                    return false;
                }
                proof {
                    seen = seen + 1;
                }
            },
            None => {
                assert(text@.skip(seen).len() == 0);
                return true;
            },
        }
    }
}

/// Whether every character of `text` may stand in a password.
pub fn all_password_acceptable(text: &str) -> (r: bool)
    ensures
        r == password_chars(text@),
{
    let mut rest = text.chars();
    let ghost mut seen: int = 0;
    loop
        invariant
            0 <= seen <= text@.len(),
            IteratorSpec::remaining(&rest) == text@.skip(seen),
            forall|i: int| 0 <= i < seen ==> password_char(#[trigger] text@[i]),
        decreases text@.len() - seen,
    {
        match rest.next() {
            Some(c) => {
                assert(c == text@.skip(seen)[0]);
                assert(text@.skip(seen).drop_first() =~= text@.skip(seen + 1));
                if !is_password_acceptable(c) {
                    return false;
                }
                proof {
                    seen = seen + 1;
                }
            },
            None => {
                assert(text@.skip(seen).len() == 0);
                return true;
            },
        }
    }
}

} // verus!
