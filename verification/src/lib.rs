//! Authentication and ownership-checked inventory storage for a small
//! HTTP backend.
//!
//! The crate holds the rules of the service: how credentials are stored and
//! verified, how identity tokens are minted and validated, and how inventory
//! rows are created, read, updated and deleted on behalf of their owner.
//! Transport, connection pooling and process start-up live with the binary
//! that embeds this library.

pub mod auth;
pub mod bearer;
pub mod credentials;
pub mod crypto;
pub mod error;
pub mod gate;
pub mod inventory;
pub mod laws;
pub mod payload;
pub mod request;
pub mod routes;
pub mod secure;
pub mod table;
pub mod token;

pub use routes::rocket;
