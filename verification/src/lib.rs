//! Core of a social-content backend: user identity, follow and favorite
//! graphs, tags on articles, and viewer-relative composition of profiles
//! and hydrated article views.
//!
//! The relational store is modeled as explicit in-memory state with the
//! uniqueness invariants the storage layer would otherwise enforce; HTTP
//! transport and serialization live outside this crate.

pub mod articles;
pub mod credentials;
pub mod di;
pub mod errors;
pub mod favorites;
pub mod follows;
pub mod hex;
pub mod profiles;
pub mod repositories;
pub mod tags;
pub mod users;
