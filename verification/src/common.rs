//! The shared model types and the shared error taxonomy.
//!
//! These are the cross-service shapes: users and games as plain values
//! (ids as 128-bit tokens, money in cents, timestamps in unix
//! milliseconds) and the service error with its rendered messages.

use vstd::prelude::*;
use vstd::string::StringExecFns;

use crate::ext::new_random_id;
use crate::ext::now_millis;

verus! {

/// A user's role, as shared between services.
#[derive(Clone, Copy, Debug, PartialEq, Eq, Structural)]
pub enum UserRole {
    Player,
    Developer,
    Admin,
}

/// The lifecycle state of a shared game record.
#[derive(Clone, Copy, Debug, PartialEq, Eq, Structural)]
pub enum GameStatus {
    Draft,
    Published,
    Archived,
}

/// A user record.
#[derive(Debug)]
pub struct User {
    pub id: u128,
    pub email: String,
    pub username: String,
    /// Unix milliseconds.
    pub created_at: i64,
    pub role: UserRole,
}

/// A request to create a user.
#[derive(Debug)]
pub struct CreateUserRequest {
    pub email: String,
    pub username: String,
    pub role: UserRole,
}

/// A request to update a user; absent fields stay unchanged.
#[derive(Debug)]
pub struct UpdateUserRequest {
    pub email: Option<String>,
    pub username: Option<String>,
    pub role: Option<UserRole>,
}

/// A shared game record.
#[derive(Debug)]
pub struct Game {
    pub id: u128,
    pub title: String,
    pub description: String,
    pub developer_id: u128,
    /// Price in cents.
    pub price: i64,
    /// Unix milliseconds.
    pub created_at: i64,
    /// Unix milliseconds.
    pub updated_at: i64,
    pub status: GameStatus,
}

/// A request to create a shared game record.
#[derive(Debug)]
pub struct CreateGameRequest {
    pub title: String,
    pub description: String,
    pub developer_id: u128,
    /// Price in cents.
    pub price: i64,
}

/// A request to update a shared game record; absent fields stay
/// unchanged.
#[derive(Debug)]
pub struct UpdateGameRequest {
    pub title: Option<String>,
    pub description: Option<String>,
    pub developer_id: Option<u128>,
    pub price: Option<i64>,
    pub status: Option<GameStatus>,
}

/// A categorized service failure with its message.
#[derive(Debug, PartialEq, Eq)]
pub enum ServiceError {
    NotFound(String),
    BadRequest(String),
    InternalError(String),
    Unauthorized,
}

impl ServiceError {
    /// The rendered text of an error.
    pub open spec fn spec_message(self) -> Seq<char> {
        match self {
            ServiceError::NotFound(msg) => "Not found: "@ + msg@,
            ServiceError::BadRequest(msg) => "Bad request: "@ + msg@,
            ServiceError::InternalError(msg) => "Internal error: "@ + msg@,
            ServiceError::Unauthorized => "Unauthorized"@,
        }
    }

    /// Renders the error as text.
    pub fn message(&self) -> (r: String)
        ensures
            r@ == self.spec_message(),
    {
        match self {
            ServiceError::NotFound(msg) => "Not found: ".to_owned().concat(msg.as_str()),
            ServiceError::BadRequest(msg) => "Bad request: ".to_owned().concat(msg.as_str()),
            ServiceError::InternalError(msg) => "Internal error: ".to_owned().concat(msg.as_str()),
            ServiceError::Unauthorized => "Unauthorized".to_owned(),
        }
    }
}

/// Builds a user from a creation request, drawing a fresh random id and
/// stamping the current time.
pub fn create_user_from_request(request: CreateUserRequest) -> (r: User)
    ensures
        r.email@ == request.email@,
        r.username@ == request.username@,
        r.role == request.role,
{
    User {
        id: new_random_id(),
        email: request.email,
        username: request.username,
        created_at: now_millis(),
        role: request.role,
    }
}

} // verus!
