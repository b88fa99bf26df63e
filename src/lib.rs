//! Session-authenticated store of users, characters, articles and tags.
//!
//! The library holds the tables in memory ([`storage::Store`]) and offers the
//! identity workflows (login, logout, invitations, password resets), the
//! identity extractor that turns a session token into a [`models::users::LoggedUser`],
//! and the authorization gate that every owner-scoped operation passes.
pub mod errors;
pub mod handlers;
pub mod identity;
pub mod ids;
pub mod models;
pub mod storage;
pub mod utils;
