//! Typed error kinds returned by the core; the transport collaborator maps
//! them to protocol responses.

use vstd::prelude::*;

verus! {

/// Every failure the core can report. Storage and credential failures
/// propagate unmodified as one of these kinds; no retries happen here.
/// `PoolTimeout` and `StorageError` are reserved for the pooled storage
/// collaborator: the in-memory state never produces them itself.
#[derive(Clone, Copy, PartialEq, Eq, Structural, Debug)]
pub enum AppError {
    /// The requested entity is absent.
    NotFound,
    /// Signup would violate the email uniqueness constraint.
    DuplicateEmail,
    /// Signup would violate the username uniqueness constraint.
    DuplicateUsername,
    /// Signin mismatch; deliberately does not distinguish a wrong password
    /// from an unknown email, to avoid account enumeration.
    InvalidCredentials,
    /// The follow edge to insert already exists (inserts are strict).
    AlreadyFollowing,
    /// The favorite edge to insert already exists (inserts are strict).
    AlreadyFavorited,
    /// The hashing primitive rejected its input (e.g. an empty password).
    CredentialError,
    /// A session token failed signature or format validation.
    TokenInvalid,
    /// The connection pool was exhausted before a connection freed up.
    PoolTimeout,
    /// Catch-all for storage failures not otherwise classified.
    StorageError,
}

} // verus!
