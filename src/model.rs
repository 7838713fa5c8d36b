//! The rows of the credential store, the store as a whole, and what each
//! operation on it yields.
//!
//! Rows carry their creation time but no expiry: pending registrations,
//! sessions and reset requests stay valid until they are used, superseded or
//! deleted. Sessions end only at logout.
use vstd::prelude::*;

use crate::digest::digest_of;
use crate::error::AuthError;
use crate::ids::uuid_parse_of;
use crate::table::{first_index, unique_by};
use crate::token::token_check;

verus! {

/// An account. Emails are stored lowercase.
pub struct Viewer {
    pub id: u128,
    pub email: String,
    pub first_name: String,
    pub last_name: String,
    pub hashed: String,
    pub salt: String,
    pub verified: bool,
    pub is_admin: bool,
    pub created_at: i64,
    pub updated_at: i64,
    pub last_login: Option<i64>,
}

/// The verification record of an account that is not yet activated.
pub struct PendingRegistration {
    pub viewer_id: u128,
    pub verification_code_hashed: String,
    pub salt: String,
    pub was_used: bool,
    pub created_at: i64,
}

/// A logged-in device: the lookup key shared with the client and the digest of
/// the secret the client holds.
pub struct Session {
    pub id: u128,
    pub viewer_id: u128,
    pub hashed_session_token: String,
    pub salt: String,
    pub created_at: i64,
}

/// An outstanding password-reset token.
pub struct PasswordResetRequest {
    pub viewer_id: u128,
    pub hashed_reset_password_token: String,
    pub salt: String,
    pub was_used: bool,
    pub created_at: i64,
}

/// The caller of a protected request, as resolved from its session.
#[derive(Clone, Copy, Debug, PartialEq, Eq, Structural)]
pub struct AuthenticatedViewer {
    pub viewer_id: u128,
    pub is_admin: bool,
}

/// Why a request's session credentials were not accepted. Only logs see the
/// difference; clients see `AuthError::Unauthorized` for each.
#[derive(Clone, Copy, Debug, PartialEq, Eq, Structural)]
pub enum Rejection {
    /// The request carries no session secret.
    MissingToken,
    /// The request carries no session key.
    MissingId,
    /// The session key is not an identifier.
    MalformedId,
    /// No session has that key.
    NoSession,
    /// The secret's digest differs from the session's.
    TokenMismatch,
    /// The session's viewer does not exist.
    NoViewer,
}

impl Rejection {
    /// A line for the server log that names the reason.
    pub fn log_message(&self) -> (r: &'static str)
        ensures
            r@ == match *self {
                Rejection::MissingToken => "no session token in the request"@,
                Rejection::MissingId => "no session id in the request"@,
                Rejection::MalformedId => "session id is not an identifier"@,
                Rejection::NoSession => "no session with that id"@,
                Rejection::TokenMismatch => "session token does not match"@,
                Rejection::NoViewer => "no viewer owns the session"@,
            },
    {
        match self {
            Rejection::MissingToken => "no session token in the request",
            Rejection::MissingId => "no session id in the request",
            Rejection::MalformedId => "session id is not an identifier",
            Rejection::NoSession => "no session with that id",
            Rejection::TokenMismatch => "session token does not match",
            Rejection::NoViewer => "no viewer owns the session",
        }
    }
}

/// The four tables of the credential store.
pub struct StoreModel {
    pub viewers: Seq<Viewer>,
    pub pending: Seq<PendingRegistration>,
    pub sessions: Seq<Session>,
    pub resets: Seq<PasswordResetRequest>,
}

/// The characters of an optional text.
pub open spec fn text_of(o: Option<&str>) -> Option<Seq<char>> {
    match o {
        Some(t) => Some(t@),
        None => None,
    }
}

/// A viewer row with this email.
pub open spec fn has_email(e: Seq<char>) -> spec_fn(Viewer) -> bool {
    |v: Viewer| v.email@ == e
}

/// A viewer row with this id.
pub open spec fn has_viewer_id(id: u128) -> spec_fn(Viewer) -> bool {
    |v: Viewer| v.id == id
}

/// A pending registration of this viewer.
pub open spec fn pending_of(id: u128) -> spec_fn(PendingRegistration) -> bool {
    |p: PendingRegistration| p.viewer_id == id
}

/// A reset row of this viewer.
pub open spec fn reset_of(id: u128) -> spec_fn(PasswordResetRequest) -> bool {
    |r: PasswordResetRequest| r.viewer_id == id
}

/// A reset row of another viewer.
pub open spec fn reset_not_of(id: u128) -> spec_fn(PasswordResetRequest) -> bool {
    |r: PasswordResetRequest| r.viewer_id != id
}

/// A session row with this key.
pub open spec fn session_with_id(id: u128) -> spec_fn(Session) -> bool {
    |s: Session| s.id == id
}

/// A session row of another viewer.
pub open spec fn session_not_of(viewer_id: u128) -> spec_fn(Session) -> bool {
    |s: Session| s.viewer_id != viewer_id
}

/// The email of a viewer row.
pub open spec fn viewer_email() -> spec_fn(Viewer) -> Seq<char> {
    |v: Viewer| v.email@
}

/// The id of a viewer row.
pub open spec fn viewer_key() -> spec_fn(Viewer) -> u128 {
    |v: Viewer| v.id
}

/// The key of a session row.
pub open spec fn session_key() -> spec_fn(Session) -> u128 {
    |s: Session| s.id
}

/// The viewer a reset row belongs to.
pub open spec fn reset_owner() -> spec_fn(PasswordResetRequest) -> u128 {
    |r: PasswordResetRequest| r.viewer_id
}

impl StoreModel {
    /// The store's invariant: emails, viewer ids and session keys are unique,
    /// and each viewer has at most one reset row.
    pub open spec fn wf(self) -> bool {
        &&& unique_by(self.viewers, viewer_email())
        &&& unique_by(self.viewers, viewer_key())
        &&& unique_by(self.sessions, session_key())
        &&& unique_by(self.resets, reset_owner())
    }
}

// ---------------------------------------------------------------- registration

/// A row that `pre_register` adds to the viewers.
pub open spec fn new_viewer_row(
    v: Viewer,
    id: u128,
    email: Seq<char>,
    first_name: Seq<char>,
    last_name: Seq<char>,
    password: Seq<char>,
    salt: Seq<char>,
    now: i64,
) -> bool {
    &&& v.id == id
    &&& v.email@ == email
    &&& v.first_name@ == first_name
    &&& v.last_name@ == last_name
    &&& v.hashed@ == digest_of(password, salt)
    &&& v.salt@ == salt
    &&& !v.verified
    &&& !v.is_admin
    &&& v.created_at == now
    &&& v.updated_at == now
    &&& v.last_login is None
}

/// The pending registration that `pre_register` adds for a new viewer.
pub open spec fn new_pending_row(
    p: PendingRegistration,
    viewer_id: u128,
    code: Seq<char>,
    salt: Seq<char>,
    now: i64,
) -> bool {
    &&& p.viewer_id == viewer_id
    &&& p.verification_code_hashed@ == digest_of(code, salt)
    &&& p.salt@ == salt
    &&& !p.was_used
    &&& p.created_at == now
}

/// Whether a viewer with this (lowercase) email exists.
pub open spec fn email_taken(m: StoreModel, email: Seq<char>) -> bool {
    first_index(m.viewers, has_email(email)) is Some
}

/// `new` is `old` with one viewer and its pending registration added.
pub open spec fn registration_created(
    old: StoreModel,
    new: StoreModel,
    id: u128,
    email: Seq<char>,
    first_name: Seq<char>,
    last_name: Seq<char>,
    password: Seq<char>,
    password_salt: Seq<char>,
    code: Seq<char>,
    code_salt: Seq<char>,
    now: i64,
) -> bool {
    &&& new.viewers.len() == old.viewers.len() + 1
    &&& new.viewers.drop_last() == old.viewers
    &&& new_viewer_row(new.viewers.last(), id, email, first_name, last_name, password, password_salt, now)
    &&& new.pending.len() == old.pending.len() + 1
    &&& new.pending.drop_last() == old.pending
    &&& new_pending_row(new.pending.last(), id, code, code_salt, now)
    &&& new.sessions == old.sessions
    &&& new.resets == old.resets
}

/// What activating an account with a presented code yields.
pub open spec fn register_outcome(m: StoreModel, email: Seq<char>, code: Seq<char>) -> Result<u128, AuthError> {
    match first_index(m.viewers, has_email(email)) {
        None => Err(AuthError::NotFound),
        Some(vi) => match first_index(m.pending, pending_of(m.viewers[vi].id)) {
            None => Err(AuthError::NotFound),
            Some(pi) => {
                let p = m.pending[pi];
                match token_check(code, p.verification_code_hashed@, p.salt@, p.was_used) {
                    Ok(()) => Ok(m.viewers[vi].id),
                    Err(e) => Err(e),
                }
            },
        },
    }
}

/// The store after activating an account: on success the viewer is verified
/// and its pending registration is used; otherwise nothing changes.
pub open spec fn register_effect(m: StoreModel, email: Seq<char>, code: Seq<char>) -> StoreModel {
    if register_outcome(m, email, code) is Ok {
        let vi = first_index(m.viewers, has_email(email))->0;
        let pi = first_index(m.pending, pending_of(m.viewers[vi].id))->0;
        StoreModel {
            viewers: m.viewers.update(vi, Viewer { verified: true, ..m.viewers[vi] }),
            pending: m.pending.update(pi, PendingRegistration { was_used: true, ..m.pending[pi] }),
            ..m
        }
    } else {
        m
    }
}

// -------------------------------------------------------------------- sessions

/// What checking a login's email and password yields: the viewer's id, or why
/// the login is refused.
pub open spec fn login_outcome(m: StoreModel, email: Seq<char>, password: Seq<char>) -> Result<u128, AuthError> {
    match first_index(m.viewers, has_email(email)) {
        None => Err(AuthError::NotFound),
        Some(vi) => if digest_of(password, m.viewers[vi].salt@) == m.viewers[vi].hashed@ {
            Ok(m.viewers[vi].id)
        } else {
            Err(AuthError::Forbidden)
        },
    }
}

/// Whether a session with key `session_id` can be opened for `viewer_id`: the
/// viewer exists and the key is not in use.
pub open spec fn open_session_outcome(m: StoreModel, viewer_id: u128, session_id: u128) -> Result<(), AuthError> {
    if first_index(m.viewers, has_viewer_id(viewer_id)) is None {
        Err(AuthError::Internal)
    } else if first_index(m.sessions, session_with_id(session_id)) is Some {
        Err(AuthError::Internal)
    } else {
        Ok(())
    }
}

/// A session row for the given key, viewer, plaintext secret and salt.
pub open spec fn new_session_row(
    s: Session,
    session_id: u128,
    viewer_id: u128,
    token: Seq<char>,
    salt: Seq<char>,
    now: i64,
) -> bool {
    &&& s.id == session_id
    &&& s.viewer_id == viewer_id
    &&& s.hashed_session_token@ == digest_of(token, salt)
    &&& s.salt@ == salt
    &&& s.created_at == now
}

/// `new` is `old` with one session added and the viewer's last login set.
pub open spec fn session_opened(
    old: StoreModel,
    new: StoreModel,
    viewer_id: u128,
    session_id: u128,
    token: Seq<char>,
    salt: Seq<char>,
    now: i64,
) -> bool {
    &&& first_index(old.viewers, has_viewer_id(viewer_id)) matches Some(vi) && new.viewers
        == old.viewers.update(vi, Viewer { last_login: Some(now), ..old.viewers[vi] })
    &&& new.sessions.len() == old.sessions.len() + 1
    &&& new.sessions.drop_last() == old.sessions
    &&& new_session_row(new.sessions.last(), session_id, viewer_id, token, salt, now)
    &&& new.pending == old.pending
    &&& new.resets == old.resets
}

/// What presenting a session key and secret yields, with the reason for a
/// refusal.
pub open spec fn authentication(
    m: StoreModel,
    session_id: Option<Seq<char>>,
    session_token: Option<Seq<char>>,
) -> Result<AuthenticatedViewer, Rejection> {
    match session_token {
        None => Err(Rejection::MissingToken),
        Some(token) => match session_id {
            None => Err(Rejection::MissingId),
            Some(text) => match uuid_parse_of(text) {
                None => Err(Rejection::MalformedId),
                Some(sid) => authentication_with_key(m, sid, token),
            },
        },
    }
}

/// What presenting the session key `session_id` with the secret
/// `session_token` yields, once the key is read.
pub open spec fn authentication_with_key(
    m: StoreModel,
    session_id: u128,
    session_token: Seq<char>,
) -> Result<AuthenticatedViewer, Rejection> {
    match first_index(m.sessions, session_with_id(session_id)) {
        None => Err(Rejection::NoSession),
        Some(si) => {
            let s = m.sessions[si];
            if digest_of(session_token, s.salt@) != s.hashed_session_token@ {
                Err(Rejection::TokenMismatch)
            } else {
                match first_index(m.viewers, has_viewer_id(s.viewer_id)) {
                    None => Err(Rejection::NoViewer),
                    Some(vi) => Ok(
                        AuthenticatedViewer { viewer_id: s.viewer_id, is_admin: m.viewers[vi].is_admin },
                    ),
                }
            }
        },
    }
}

/// What a client learns of an authentication: the caller, or `Unauthorized`
/// whatever the reason.
pub open spec fn client_result(r: Result<AuthenticatedViewer, Rejection>) -> Result<AuthenticatedViewer, AuthError> {
    match r {
        Ok(a) => Ok(a),
        Err(_) => Err(AuthError::Unauthorized),
    }
}

// -------------------------------------------------------------- password reset

/// Whose reset token a request for `email` rotates.
pub open spec fn reset_request_outcome(m: StoreModel, email: Seq<char>) -> Result<u128, AuthError> {
    match first_index(m.viewers, has_email(email)) {
        None => Err(AuthError::NotFound),
        Some(vi) => Ok(m.viewers[vi].id),
    }
}

/// The reset row issued for a viewer.
pub open spec fn new_reset_row(
    r: PasswordResetRequest,
    viewer_id: u128,
    token: Seq<char>,
    salt: Seq<char>,
    now: i64,
) -> bool {
    &&& r.viewer_id == viewer_id
    &&& r.hashed_reset_password_token@ == digest_of(token, salt)
    &&& r.salt@ == salt
    &&& !r.was_used
    &&& r.created_at == now
}

/// `new` is `old` with every reset row of the viewer replaced by one new row.
pub open spec fn reset_issued(
    old: StoreModel,
    new: StoreModel,
    viewer_id: u128,
    token: Seq<char>,
    salt: Seq<char>,
    now: i64,
) -> bool {
    &&& new.resets.len() >= 1
    &&& new.resets.drop_last() == old.resets.filter(reset_not_of(viewer_id))
    &&& new_reset_row(new.resets.last(), viewer_id, token, salt, now)
    &&& new.viewers == old.viewers
    &&& new.pending == old.pending
    &&& new.sessions == old.sessions
}

/// What consuming a reset token yields.
pub open spec fn reset_outcome(m: StoreModel, email: Seq<char>, token: Seq<char>) -> Result<u128, AuthError> {
    match first_index(m.viewers, has_email(email)) {
        None => Err(AuthError::NotFound),
        Some(vi) => match first_index(m.resets, reset_of(m.viewers[vi].id)) {
            None => Err(AuthError::NotFound),
            Some(ri) => {
                let r = m.resets[ri];
                match token_check(token, r.hashed_reset_password_token@, r.salt@, r.was_used) {
                    Ok(()) => Ok(m.viewers[vi].id),
                    Err(e) => Err(e),
                }
            },
        },
    }
}

/// `new` is `old` after a successful reset: the viewer has the new password's
/// digest under `salt`, and the reset row is used.
pub open spec fn password_reset_applied(
    old: StoreModel,
    new: StoreModel,
    email: Seq<char>,
    password: Seq<char>,
    salt: Seq<char>,
    now: i64,
) -> bool {
    &&& first_index(old.viewers, has_email(email)) matches Some(vi) && {
        &&& new.viewers == old.viewers.update(
            vi,
            Viewer {
                hashed: new.viewers[vi].hashed,
                salt: new.viewers[vi].salt,
                updated_at: now,
                ..old.viewers[vi]
            },
        )
        &&& new.viewers[vi].hashed@ == digest_of(password, salt)
        &&& new.viewers[vi].salt@ == salt
        &&& first_index(old.resets, reset_of(old.viewers[vi].id)) matches Some(ri) && new.resets
            == old.resets.update(ri, PasswordResetRequest { was_used: true, ..old.resets[ri] })
    }
    &&& new.pending == old.pending
    &&& new.sessions == old.sessions
}

} // verus!
