//! Single-use hashed tokens, shared by verification codes, reset tokens and
//! session secrets: only a token's digest and salt are stored, and a presented
//! plaintext is accepted while its record is unused.
use vstd::prelude::*;

use crate::digest::{digest_of, hash_secret, verify_secret};
use crate::error::AuthError;

verus! {

/// What is stored of an issued token, beside the plaintext handed out.
pub struct IssuedToken {
    pub plaintext: String,
    pub digest: String,
    pub salt: String,
}

/// Issues the token `plaintext` under `salt`.
pub fn issue_token(plaintext: &str, salt: &str) -> (r: IssuedToken)
    ensures
        r.plaintext@ == plaintext@,
        r.salt@ == salt@,
        r.digest@ == digest_of(plaintext@, salt@),
{
    IssuedToken {
        plaintext: String::from_str(plaintext),
        digest: hash_secret(plaintext, salt),
        salt: String::from_str(salt),
    }
}

/// What presenting a token against a stored record yields: a plaintext that
/// does not match is `Forbidden`; a match on a used record is `Conflict`.
pub open spec fn token_check(presented: Seq<char>, digest: Seq<char>, salt: Seq<char>, was_used: bool) -> Result<(), AuthError> {
    if digest_of(presented, salt) != digest {
        Err(AuthError::Forbidden)
    } else if was_used {
        Err(AuthError::Conflict)
    } else {
        Ok(())
    }
}

/// Checks a presented plaintext against a stored digest, salt and used flag.
pub fn check_token(presented: &str, digest: &str, salt: &str, was_used: bool) -> (r: Result<(), AuthError>)
    ensures
        r == token_check(presented@, digest@, salt@, was_used),
{
    if !verify_secret(presented, salt, digest) {
        Err(AuthError::Forbidden)
    } else if was_used {
        Err(AuthError::Conflict)
    } else {
        Ok(())
    }
}

} // verus!
