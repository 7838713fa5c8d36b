//! The outcomes that callers of the credential flows tell apart.
use vstd::prelude::*;

verus! {

/// Why an operation of the credential subsystem failed.
#[derive(Clone, Copy, Debug, PartialEq, Eq, Structural)]
pub enum AuthError {
    /// No viewer, pending registration, reset request or session matches.
    NotFound,
    /// A presented secret does not match, or the caller is not an admin.
    Forbidden,
    /// The email is taken, or a single-use token was used already.
    Conflict,
    /// Session credentials are missing, malformed or do not verify.
    Unauthorized,
    /// The store could not take the change.
    Internal,
}

impl AuthError {
    /// The HTTP status that the error maps to.
    pub fn status_code(&self) -> (r: u16)
        ensures
            r == match *self {
                AuthError::NotFound => 404u16,
                AuthError::Forbidden => 403u16,
                AuthError::Conflict => 409u16,
                AuthError::Unauthorized => 401u16,
                AuthError::Internal => 500u16,
            },
    {
        match self {
            AuthError::NotFound => 404,
            AuthError::Forbidden => 403,
            AuthError::Conflict => 409,
            AuthError::Unauthorized => 401,
            AuthError::Internal => 500,
        }
    }
}

} // verus!
