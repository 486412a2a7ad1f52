//! Catalog query and aggregate-maintenance engine for a game listing.
//!
//! The crate models the persisted `Game` record and verifies the logic that
//! surrounds it: the filter predicate used by list queries, stable ordering
//! and pagination, and the incremental maintenance of rating, purchase and
//! screenshot aggregates.  Transport plumbing and the persistence substrate
//! stay outside; the engine works on plain values.

pub mod aggregates;
pub mod catalog;
pub mod common;
pub mod errors;
pub mod ext;
pub mod filter;
pub mod game;
pub mod laws;
pub mod models;
pub mod order;
pub mod ratelimit;
pub mod store;
pub mod text;
pub mod users;
pub mod validation;

pub use errors::CatalogError;
pub use game::DbGame;
pub use game::GameView;
pub use models::DbGameCategory;
pub use models::DbGameStatus;
pub use store::GameStore;
