//! Credential and session lifecycle for a profile directory: salted secret
//! digests, single-use tokens, registration and password-reset flows, session
//! issuance and request-time session authentication.
use vstd::prelude::*;

pub mod digest;
pub mod error;
pub mod ids;
pub mod laws;
pub mod model;
pub mod notify;
pub mod schema;
pub mod session;
pub mod store;
pub mod table;
pub mod token;

verus! {

} // verus!
