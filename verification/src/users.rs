//! User records, role codes, and password hashing.
//!
//! Roles carry one canonical bidirectional mapping to the wire codes and
//! one to the label strings the HTTP layer serves.  Password hashing goes
//! through the trusted Argon2 boundary and is classified into the user
//! service's error taxonomy here.

use vstd::prelude::*;

use crate::ext::argon2_phc_hash;

verus! {

/// A user's role.
#[derive(Clone, Copy, Debug, PartialEq, Eq, Structural)]
pub enum DbUserRole {
    Player,
    Developer,
    Admin,
}

/// A categorized user-service failure.
#[derive(Clone, Debug, PartialEq, Eq)]
pub enum UserServiceError {
    /// The persistence substrate failed.
    Database,
    /// A user id did not parse as an identifier.
    InvalidUuid,
    /// Password hashing failed.
    PasswordHash,
    /// No user matches the id.
    UserNotFound,
    /// A request field failed validation; the message says which.
    ValidationError(String),
}

/// A stored user row, as plain values: the id as a 128-bit token, the
/// creation time in unix milliseconds.
#[derive(Debug)]
pub struct DbUser {
    pub id: u128,
    pub email: String,
    pub username: String,
    pub created_at: i64,
    pub role: DbUserRole,
}

impl DbUserRole {
    /// The wire code of a role.
    pub open spec fn spec_to_proto(self) -> i32 {
        match self {
            DbUserRole::Player => 0,
            DbUserRole::Developer => 1,
            DbUserRole::Admin => 2,
        }
    }

    /// The role a wire code denotes; every unknown code falls back to
    /// `Player`.
    pub open spec fn spec_from_proto(value: i32) -> DbUserRole {
        if value == 1 {
            DbUserRole::Developer
        } else if value == 2 {
            DbUserRole::Admin
        } else {
            DbUserRole::Player
        }
    }

    /// Decodes a wire code; every unknown code falls back to `Player`.
    pub fn from_proto(value: i32) -> (r: Self)
        ensures
            r == Self::spec_from_proto(value),
    {
        match value {
            1 => DbUserRole::Developer,
            2 => DbUserRole::Admin,
            _ => DbUserRole::Player,
        }
    }
}

/// Encodes a role as its wire code.
pub fn db_role_to_proto(role: DbUserRole) -> (r: i32)
    ensures
        r == role.spec_to_proto(),
{
    match role {
        DbUserRole::Player => 0,
        DbUserRole::Developer => 1,
        DbUserRole::Admin => 2,
    }
}

/// The label a role code denotes on the wire.
pub open spec fn spec_role_label(role: i32) -> Seq<char> {
    if role == 0 {
        "player"@
    } else if role == 1 {
        "developer"@
    } else if role == 2 {
        "admin"@
    } else {
        "unknown"@
    }
}

/// Renders a role code as its label; unknown codes render as `unknown`.
pub fn proto_role_to_string(role: i32) -> (r: String)
    ensures
        r@ == spec_role_label(role),
{
    match role {
        0 => "player".to_owned(),
        1 => "developer".to_owned(),
        2 => "admin".to_owned(),
        _ => "unknown".to_owned(),
    }
}

/// The role code a label denotes, if any.
pub open spec fn spec_role_from_label(s: Seq<char>) -> Option<i32> {
    if s == "player"@ {
        Some(0i32)
    } else if s == "developer"@ {
        Some(1i32)
    } else if s == "admin"@ {
        Some(2i32)
    } else {
        None
    }
}

/// Parses a role label; an unknown label parses to nothing.
pub fn role_from_label(s: &str) -> (r: Option<i32>)
    ensures
        r == spec_role_from_label(s@),
{
    if crate::models::str_eq(s, "player") {
        Some(0)
    } else if crate::models::str_eq(s, "developer") {
        Some(1)
    } else if crate::models::str_eq(s, "admin") {
        Some(2)
    } else {
        None
    }
}

/// The transport code label of a user-service failure.
pub open spec fn spec_status_code(err: UserServiceError) -> Seq<char> {
    match err {
        UserServiceError::Database => "internal"@,
        UserServiceError::InvalidUuid => "invalid_argument"@,
        UserServiceError::PasswordHash => "internal"@,
        UserServiceError::UserNotFound => "not_found"@,
        UserServiceError::ValidationError(_) => "invalid_argument"@,
    }
}

/// The user-visible message of a user-service failure.
pub open spec fn spec_status_message(err: UserServiceError) -> Seq<char> {
    match err {
        UserServiceError::Database => "Database error"@,
        UserServiceError::InvalidUuid => "Invalid user ID format"@,
        UserServiceError::PasswordHash => "Password processing failed"@,
        UserServiceError::UserNotFound => "User not found"@,
        UserServiceError::ValidationError(msg) => msg@,
    }
}

/// Categorizes a user-service failure for the transport layer: a code
/// label that the layer maps to its wire status, and the user-visible
/// message.  Caller mistakes and substrate failures stay distinguishable.
pub fn user_service_error_to_status(err: UserServiceError) -> (r: (String, String))
    ensures
        r.0@ == spec_status_code(err),
        r.1@ == spec_status_message(err),
{
    match err {
        UserServiceError::Database => ("internal".to_owned(), "Database error".to_owned()),
        UserServiceError::InvalidUuid => (
            "invalid_argument".to_owned(),
            "Invalid user ID format".to_owned(),
        ),
        UserServiceError::PasswordHash => (
            "internal".to_owned(),
            "Password processing failed".to_owned(),
        ),
        UserServiceError::UserNotFound => ("not_found".to_owned(), "User not found".to_owned()),
        UserServiceError::ValidationError(msg) => ("invalid_argument".to_owned(), msg),
    }
}

/// Splits a millisecond stamp into whole seconds and subsecond
/// nanoseconds, flooring toward minus infinity, for any stamp.
pub fn datetime_to_timestamp(ms: i64) -> (r: (i64, u32))
    ensures
        r.1 < 1_000_000_000,
        r.1 % 1_000_000 == 0,
        ms == r.0 * 1000 + r.1 / 1_000_000,
{
    // Shift into non-negative range by a multiple of 1000, divide there,
    // and shift the quotient back.
    let shifted: u128 = ((ms as i128) + 9_223_372_036_854_776_000i128) as u128;
    let q: u128 = shifted / 1000;
    let rem: u128 = shifted % 1000;
    proof {
        vstd::arithmetic::div_mod::lemma_fundamental_div_mod(shifted as int, 1000);
    }
    let seconds: i64 = ((q as i128) - 9_223_372_036_854_776i128) as i64;
    let nanos: u32 = (rem as u32) * 1_000_000;
    (seconds, nanos)
}

/// Hashes a password with Argon2 under a fresh random salt.  On success
/// the result is a PHC-format string; a hashing failure is classified as
/// `PasswordHash`.
pub fn hash_password(password: &str) -> (r: Result<String, UserServiceError>)
    ensures
        r matches Ok(h) ==> h@.len() > 0 && h@[0] == '$',
        r matches Err(e) ==> e == UserServiceError::PasswordHash,
{
    match argon2_phc_hash(password) {
        Ok(h) => Ok(h),
        Err(_) => Err(UserServiceError::PasswordHash),
    }
}

} // verus!
