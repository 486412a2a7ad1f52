//! The error taxonomy of the engine.
//!
//! Every failure leaving the catalog façade is one of these categories, so
//! the transport layer can tell caller mistakes (`NotFound`,
//! `InvalidArgument`) from substrate failures (`Internal`).

use vstd::prelude::*;

verus! {

/// The wire shape of a failure: a short error label and a user-visible
/// message.  The transport layer serializes it; the engine only fills it.
#[derive(Debug, PartialEq, Eq)]
pub struct ErrorResponse {
    pub error: String,
    pub message: String,
}

/// A categorized engine failure.
#[derive(Clone, Copy, Debug, PartialEq, Eq, Structural)]
pub enum CatalogError {
    /// The operation targeted an id with no live matching row.
    NotFound,
    /// A malformed identifier, an out-of-range rating value, a category
    /// outside the closed vocabulary, or a negative price.
    InvalidArgument,
    /// A uniqueness violation on create.
    Conflict,
    /// An ownership check failed.
    Unauthorized,
    /// A substrate failure not classified above.
    Internal,
}

} // verus!
