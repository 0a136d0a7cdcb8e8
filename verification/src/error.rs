//! The error taxonomy of the library.
//!
//! Every operation returns a typed failure to its caller; nothing here is
//! logged, swallowed, or fatal to the process.  The boundary layer decides
//! how each variant is rendered on the wire (and is expected to collapse
//! `UnknownUser` and `InvalidCredentials` into one message, to avoid
//! username enumeration).

use vstd::prelude::*;

verus! {

/// Why a token failed to validate.  `Expired` is kept distinct so that a
/// caller can tell "never valid" from "no longer valid"; the boundary
/// layer may still collapse the three.
#[derive(Debug, Clone, Copy, PartialEq, Eq, Structural)]
pub enum TokenError {
    /// The token is not structurally a signed claim set.
    Malformed,
    /// The signature does not match the claim bytes under the service
    /// secret.
    SignatureInvalid,
    /// The claim set is past its expiry time.
    Expired,
}

/// Why a password hashing operation failed.
#[derive(Debug, Clone, Copy, PartialEq, Eq, Structural)]
pub enum HashingError {
    /// The configured cost parameters are outside the accepted range.
    Misconfigured,
    /// A stored hash handed to verification is not in the stored-hash
    /// format.
    MalformedStoredHash,
}

/// An error returned by a user-store provider.
#[derive(Debug, Clone, Copy, PartialEq, Eq, Structural)]
pub enum ProvideError {
    /// The requested entity does not exist.
    NotFound,
    /// The operation violates a uniqueness constraint.
    UniqueViolation,
    /// The requested operation violates the data model.
    ModelViolation,
    /// Any other provider failure.
    UnHandledError,
}

/// The error surface of the library.
#[derive(Debug, Clone, Copy, PartialEq, Eq, Structural)]
pub enum Error {
    /// The process configuration is unusable: a startup-time condition,
    /// never a per-request one.
    Config,
    /// Password hashing or verification could not complete.
    Hashing(HashingError),
    /// Token decoding or validation failed.
    Token(TokenError),
    /// Registration hit an existing username.
    DuplicateUsername,
    /// Login named a username with no record.  Surface this to external
    /// callers with the same message as `InvalidCredentials`.
    UnknownUser,
    /// Login presented a wrong password for an existing record.
    InvalidCredentials,
    /// A store failure not classified as a duplicate username.
    Store(ProvideError),
}

impl Error {
    /// A short label for each variant, the tag under which the boundary
    /// layer reports the failure.
    pub fn label(&self) -> (r: &'static str)
        ensures
            r@ == match self {
                Error::Config => "config error"@,
                Error::Hashing(_) => "hashing error"@,
                Error::Token(_) => "unauthenticated"@,
                Error::DuplicateUsername => "duplicate username"@,
                Error::UnknownUser => "invalid credentials"@,
                Error::InvalidCredentials => "invalid credentials"@,
                Error::Store(_) => "store error"@,
            },
    {
        match self {
            Error::Config => "config error",
            Error::Hashing(_) => "hashing error",
            Error::Token(_) => "unauthenticated",
            Error::DuplicateUsername => "duplicate username",
            Error::UnknownUser => "invalid credentials",
            Error::InvalidCredentials => "invalid credentials",
            Error::Store(_) => "store error",
        }
    }
}

} // verus!
