//! The trusted boundary to the outside world: fresh identifiers, the wall
//! clock, and password hashing.
//!
//! Each wrapper makes exactly one outside call.  Their results depend on
//! randomness or on the machine, so the contracts state only what holds of
//! every outcome; the verified callers take these values as given and are
//! proved for every value.

use vstd::prelude::*;

use argon2::PasswordHasher;

verus! {

/// Relies on `uuid::Uuid::new_v4` and `Uuid::as_u128`: a freshly drawn
/// random 128-bit identifier.  Nothing can be promised of a random value.
#[verifier::external_body]
pub fn new_random_id() -> u128 {
    uuid::Uuid::new_v4().as_u128()
}

/// Relies on `chrono::Utc::now` and `DateTime::timestamp_millis`: the wall
/// clock, in unix milliseconds.  Nothing can be promised of the machine's
/// clock.
#[verifier::external_body]
pub fn now_millis() -> i64 {
    chrono::Utc::now().timestamp_millis()
}

/// What `char::is_alphanumeric` returns: a function of the character
/// alone, defined by the Unicode properties the standard library encodes.
pub uninterp spec fn char_alphanumeric(c: char) -> bool;

/// Relies on `char::is_alphanumeric`: whether the character is
/// alphanumeric under Unicode's `Alphabetic` property or a numeric
/// category; the result depends on the character alone.
#[verifier::external_body]
pub(crate) fn is_alphanumeric_char(c: char) -> (r: bool)
    ensures
        r == char_alphanumeric(c),
{
    c.is_alphanumeric()
}

#[verifier::external_type_specification]
#[verifier::external_body]
pub struct ExPasswordHashError(argon2::password_hash::Error);

/// Relies on `password_hash::PasswordHasher::hash_password` with
/// `argon2::Argon2::default()`: an Argon2id hash of the password under a
/// fresh random salt, rendered in PHC string format.  The salt is random,
/// so only the format's leading separator can be promised of the result.
#[verifier::external_body]
pub(crate) fn argon2_phc_hash(password: &str) -> (r: Result<
    String,
    argon2::password_hash::Error,
>)
    ensures
        r matches Ok(h) ==> h@.len() > 0 && h@[0] == '$',
{
    match argon2::Argon2::default().hash_password(password.as_bytes()) {
        Ok(h) => Ok(h.to_string()),
        Err(e) => Err(e),
    }
}

} // verus!
