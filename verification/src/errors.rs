use vstd::prelude::*;

verus! {

/// Why creating a user failed: the identity is already taken, the
/// password could not be hashed, or the store refused the write.
#[derive(Debug, PartialEq, Eq, Structural, Clone, Copy)]
pub enum CreateUserError {
    DuplicateId,
    HashFailure,
    StoreFailure,
}

/// Why a password update failed: the old password did not verify, the
/// new one could not be hashed, or the store refused the write.
#[derive(Debug, PartialEq, Eq, Structural, Clone, Copy)]
pub enum UpdatePasswordError {
    AuthenticationFailed,
    HashFailure,
    StoreFailure,
}

/// The uniform error taxonomy handed to the transport layer, which maps
/// each tag to a status code and never learns which check failed inside.
#[derive(Debug, PartialEq, Eq, Structural, Clone, Copy)]
pub enum ServiceError {
    /// Bad credentials or an invalid token; reported generically.
    Authentication,
    /// The policy denied the requested transition.
    Authorization,
    /// A malformed argument, such as an empty or negative time window.
    Validation,
    /// A conditional write matched no row: the state changed concurrently.
    Conflict,
    /// The underlying store failed; treated as internal.
    Store,
}

} // verus!
