use crate::gametypes::error::AscendingError;
use crate::sql::playerstruct::PlayerWithPassword;
use argon2::{Argon2, PasswordHash, PasswordHasher, PasswordVerifier};
use password_hash::SaltString;
use vstd::prelude::*;
use vstd::utf8::*;
use vstd::string::StringSliceAdditionalSpecFns;

verus! {

/// What the store answers when asked whether a user name and an e-mail
/// address are taken.
#[derive(Debug, Copy, Clone, PartialEq, Eq, Structural)]
pub struct Check {
    pub username_check: bool,
    pub email_check: bool,
}

/// The salt with which every password is hashed.
pub const SALT: &'static str = "ascending-login";

/// What is stored in place of a hash where a password could not be hashed.
pub const FAILED_PASSWORD_HASH: &'static str = "FailedPasswordHash";

/// The PHC string that `argon2` computes for `password` with `salt`, under
/// its default parameters; `None` where it computes none.
pub uninterp spec fn argon2_hash_of(password: Seq<u8>, salt: Seq<u8>) -> Option<Seq<char>>;

/// Whether `argon2`, under its default parameters, accepts `password` for
/// the PHC string `stored`. A string that is no PHC string accepts none.
pub uninterp spec fn argon2_accepts(password: Seq<u8>, stored: Seq<char>) -> bool;

/// `Argon2::hash_password` under the default parameters, with the salt made
/// by `SaltString::encode_b64`. Claims that the result depends on the
/// password and the salt alone. The salt must have three bytes at least:
/// a shorter one makes a salt string that `hash_password` panics on.
#[verifier::external_body]
fn argon2_hash(password: &[u8], salt: &[u8]) -> (r: Option<String>)
    requires
        salt@.len() >= 3,
    ensures
        (match r {
            Some(hash) => Some(hash@),
            None => None,
        }) == argon2_hash_of(password@, salt@),
{
    match SaltString::encode_b64(salt) {
        Ok(salt) => match Argon2::default().hash_password(password, &salt) {
            Ok(hash) => Some(hash.to_string()),
            Err(_) => None,
        },
        Err(_) => None,
    }
}

/// `Argon2::verify_password` under the default parameters, on the hash that
/// `PasswordHash::new` reads from `stored`. Claims that the result depends on
/// the password and the stored string alone.
#[verifier::external_body]
fn argon2_verify(password: &[u8], stored: &str) -> (r: bool)
    ensures
        r == argon2_accepts(password@, stored@),
{
    match PasswordHash::new(stored) {
        Ok(hash) => Argon2::default().verify_password(password, &hash).is_ok(),
        Err(_) => false,
    }
}

/// What the answer of the store means for a registration: 1 where the user
/// name is taken, 2 where it is free and the e-mail address is taken, and 0
/// where both are free.
pub open spec fn existence_code(check: Check) -> i64 {
    if check.username_check {
        1
    } else if check.email_check {
        2
    } else {
        0
    }
}

/// What the answer of the store means for a registration.
pub fn check_existance(check: Check) -> (r: i64)
    ensures
        r == existence_code(check),
{
    if check.username_check {
        return 1;
    } else if check.email_check {
        return 2;
    }
    0
}

/// The row that a login goes on with: the row that the store found for the
/// e-mail address, where the password is the one whose hash it holds.
pub fn find_player(userdata: Option<PlayerWithPassword>, password: &str) -> (r: Result<
    Option<PlayerWithPassword>,
    AscendingError,
>)
    ensures
        match userdata {
            None => r == Ok::<Option<PlayerWithPassword>, AscendingError>(None),
            Some(row) => if argon2_accepts(password.spec_bytes(), row.password@) {
                r == Ok::<Option<PlayerWithPassword>, AscendingError>(Some(row))
            } else {
                r matches Err(AscendingError::IncorrectPassword)
            },
        },
{
    match userdata {
        Some(userdata) => {
            if argon2_verify(password.as_bytes(), userdata.password.as_str()) {
                Ok(Some(userdata))
            } else {
                Err(AscendingError::IncorrectPassword)
            }
        },
        None => Ok(None),
    }
}

/// The salt has fifteen bytes, which is enough for a salt.
pub proof fn lemma_salt_is_long_enough()
    ensures
        SALT.spec_bytes().len() == 15,
{
    reveal_strlit("ascending-login");
    let text = SALT@;
    assert(text.len() == 15);
    assert(is_ascii_chars(text));
    is_ascii_chars_encode_utf8(text);
}

/// What is stored as the password of a new player: the hash of `password`,
/// or [`FAILED_PASSWORD_HASH`] where it cannot be hashed.
pub open spec fn stored_password(password: Seq<u8>) -> Seq<char> {
    match argon2_hash_of(password, SALT.spec_bytes()) {
        Some(hash) => hash,
        None => FAILED_PASSWORD_HASH@,
    }
}

/// What is stored as the password of a new player.
pub fn new_player(password: &str) -> (hashed_password: String)
    ensures
        hashed_password@ == stored_password(password.spec_bytes()),
{
    proof {
        lemma_salt_is_long_enough();
    }
    match argon2_hash(password.as_bytes(), SALT.as_bytes()) {
        Some(hash) => hash,
        None => FAILED_PASSWORD_HASH.to_owned(),
    }
}

} // verus!
