//! The credential store and the flows that run on it: registration, login and
//! logout, password reset, and request-time session authentication.
use vstd::prelude::*;

use crate::digest::{hash_secret, verify_secret};
use crate::error::AuthError;
use crate::ids::{parse_uuid, random_text, random_uuid, uuid_text, uuid_text_of};
use crate::model::{
    text_of, authentication, client_result, email_taken, has_email, has_viewer_id, login_outcome,
    open_session_outcome, password_reset_applied, pending_of, register_effect, register_outcome,
    registration_created, reset_issued, reset_not_of, reset_of, reset_outcome,
    reset_request_outcome, session_not_of, session_opened, session_with_id,
    AuthenticatedViewer, PasswordResetRequest, PendingRegistration, Rejection, Session,
    StoreModel, Viewer, authentication_with_key, reset_owner, session_key, viewer_email,
    viewer_key,
};
use crate::schema::{
    LoginSchema, PreRegisterSchema, PreResetPasswordSchema, RegisterSchema, ResetPasswordSchema,
};
use crate::token::{check_token, issue_token};
use crate::session::{cleared_cookie, cleared_cookie_text, session_cookie, set_cookie_text};
use crate::table::{
    first_index, lemma_filter_unique_by, lemma_first_index_found, lemma_first_index_is,
    lemma_first_index_none, lemma_first_index_none_means_no_row, lemma_push_unique_by,
    lemma_update_unique_by,
};

verus! {

/// What `str::to_lowercase` yields.
pub uninterp spec fn lower_of(s: Seq<char>) -> Seq<char>;

/// Relies on `str::to_lowercase`: the result depends on the characters alone.
#[verifier::external_body]
fn to_lowercase(s: &str) -> (r: String)
    ensures
        r@ == lower_of(s@),
{
    s.to_lowercase()
}

/// An index found by a lookup, as a spec value.
pub open spec fn as_index(r: Option<usize>) -> Option<int> {
    match r {
        Some(i) => Some(i as int),
        None => None,
    }
}

fn find_viewer_by_email(vs: &Vec<Viewer>, email: &String) -> (r: Option<usize>)
    ensures
        first_index(vs@, has_email(email@)) == as_index(r),
{
    let mut i: usize = 0;
    while i < vs.len()
        invariant
            0 <= i <= vs.len(),
            forall|j: int| 0 <= j < i ==> !has_email(email@)(#[trigger] vs@[j]),
        decreases vs.len() - i,
    {
        if vs[i].email == *email {
            proof {
                lemma_first_index_is(vs@, has_email(email@), i as int);
            }
            return Some(i);
        }
        i += 1;
    }
    proof {
        lemma_first_index_none(vs@, has_email(email@));
    }
    None
}

fn find_viewer_by_id(vs: &Vec<Viewer>, id: u128) -> (r: Option<usize>)
    ensures
        first_index(vs@, has_viewer_id(id)) == as_index(r),
{
    let mut i: usize = 0;
    while i < vs.len()
        invariant
            0 <= i <= vs.len(),
            forall|j: int| 0 <= j < i ==> !has_viewer_id(id)(#[trigger] vs@[j]),
        decreases vs.len() - i,
    {
        if vs[i].id == id {
            proof {
                lemma_first_index_is(vs@, has_viewer_id(id), i as int);
            }
            return Some(i);
        }
        i += 1;
    }
    proof {
        lemma_first_index_none(vs@, has_viewer_id(id));
    }
    None
}

fn find_pending(ps: &Vec<PendingRegistration>, viewer_id: u128) -> (r: Option<usize>)
    ensures
        first_index(ps@, pending_of(viewer_id)) == as_index(r),
{
    let mut i: usize = 0;
    while i < ps.len()
        invariant
            0 <= i <= ps.len(),
            forall|j: int| 0 <= j < i ==> !pending_of(viewer_id)(#[trigger] ps@[j]),
        decreases ps.len() - i,
    {
        if ps[i].viewer_id == viewer_id {
            proof {
                lemma_first_index_is(ps@, pending_of(viewer_id), i as int);
            }
            return Some(i);
        }
        i += 1;
    }
    proof {
        lemma_first_index_none(ps@, pending_of(viewer_id));
    }
    None
}

fn find_reset(rs: &Vec<PasswordResetRequest>, viewer_id: u128) -> (r: Option<usize>)
    ensures
        first_index(rs@, reset_of(viewer_id)) == as_index(r),
{
    let mut i: usize = 0;
    while i < rs.len()
        invariant
            0 <= i <= rs.len(),
            forall|j: int| 0 <= j < i ==> !reset_of(viewer_id)(#[trigger] rs@[j]),
        decreases rs.len() - i,
    {
        if rs[i].viewer_id == viewer_id {
            proof {
                lemma_first_index_is(rs@, reset_of(viewer_id), i as int);
            }
            return Some(i);
        }
        i += 1;
    }
    proof {
        lemma_first_index_none(rs@, reset_of(viewer_id));
    }
    None
}

fn find_session(ss: &Vec<Session>, id: u128) -> (r: Option<usize>)
    ensures
        first_index(ss@, session_with_id(id)) == as_index(r),
{
    let mut i: usize = 0;
    while i < ss.len()
        invariant
            0 <= i <= ss.len(),
            forall|j: int| 0 <= j < i ==> !session_with_id(id)(#[trigger] ss@[j]),
        decreases ss.len() - i,
    {
        if ss[i].id == id {
            proof {
                lemma_first_index_is(ss@, session_with_id(id), i as int);
            }
            return Some(i);
        }
        i += 1;
    }
    proof {
        lemma_first_index_none(ss@, session_with_id(id));
    }
    None
}

/// What a client is handed after a login: the session's lookup key as
/// identifier text, the plaintext session secret, and the two `Set-Cookie`
/// values that carry them.
pub struct SessionCredentials {
    pub session_id: String,
    pub session_token: String,
    pub token_cookie: String,
    pub id_cookie: String,
}

/// What a logout yields: how many sessions ended, and the two `Set-Cookie`
/// values that clear the client's credentials.
pub struct LogoutOutcome {
    pub removed: usize,
    pub token_cookie: String,
    pub id_cookie: String,
}

/// `after` is `before` with a new session for `viewer_id` whose key was
/// unused, and `c` hands that session's key and secret to the client in two
/// cookies for `domain`.
pub open spec fn credentials_issued(
    before: StoreModel,
    after: StoreModel,
    viewer_id: u128,
    c: SessionCredentials,
    domain: Seq<char>,
    now: i64,
) -> bool {
    let s = after.sessions.last();
    &&& first_index(before.sessions, session_with_id(s.id)) is None
    &&& session_opened(before, after, viewer_id, s.id, c.session_token@, s.salt@, now)
    &&& c.session_id@ == uuid_text_of(s.id)
    &&& c.token_cookie@ == set_cookie_text("session_token"@, c.session_token@, domain)
    &&& c.id_cookie@ == set_cookie_text("session_id"@, c.session_id@, domain)
}

/// What the verification email for a new account needs.
pub struct PreRegistration {
    pub viewer_id: u128,
    pub email: String,
    pub first_name: String,
    pub verification_code: String,
}

/// What the password-reset email needs.
pub struct ResetNotice {
    pub viewer_id: u128,
    pub email: String,
    pub first_name: String,
    pub reset_password_token: String,
}

impl Session {
    /// A copy of the row.
    pub fn copy_row(&self) -> (r: Session)
        ensures
            r == *self,
    {
        Session {
            id: self.id,
            viewer_id: self.viewer_id,
            hashed_session_token: self.hashed_session_token.clone(),
            salt: self.salt.clone(),
            created_at: self.created_at,
        }
    }
}

impl PasswordResetRequest {
    /// A copy of the row.
    pub fn copy_row(&self) -> (r: PasswordResetRequest)
        ensures
            r == *self,
    {
        PasswordResetRequest {
            viewer_id: self.viewer_id,
            hashed_reset_password_token: self.hashed_reset_password_token.clone(),
            salt: self.salt.clone(),
            was_used: self.was_used,
            created_at: self.created_at,
        }
    }
}

/// The credential store: viewers, pending registrations, sessions and reset
/// requests, held in memory and changed only through the flows below.
pub struct AuthStore {
    viewers: Vec<Viewer>,
    pending: Vec<PendingRegistration>,
    sessions: Vec<Session>,
    resets: Vec<PasswordResetRequest>,
}

impl View for AuthStore {
    type V = StoreModel;

    closed spec fn view(&self) -> StoreModel {
        StoreModel {
            viewers: self.viewers@,
            pending: self.pending@,
            sessions: self.sessions@,
            resets: self.resets@,
        }
    }
}

impl AuthStore {
    /// An empty store.
    pub fn new() -> (r: AuthStore)
        ensures
            r@.wf(),
            r@.viewers.len() == 0,
            r@.pending.len() == 0,
            r@.sessions.len() == 0,
            r@.resets.len() == 0,
    {
        AuthStore { viewers: Vec::new(), pending: Vec::new(), sessions: Vec::new(), resets: Vec::new() }
    }

    /// Activates the account registered under `body.email` (compared
    /// lowercase) when `body.verification_code` matches its pending
    /// registration: the viewer becomes verified and the code is used up.
    /// No such viewer or registration: `NotFound`; wrong code: `Forbidden`;
    /// code used already: `Conflict`.
    pub fn activate(&mut self, body: &RegisterSchema) -> (r: Result<u128, AuthError>)
        requires
            old(self)@.wf(),
        ensures
            final(self)@.wf(),
            r == register_outcome(old(self)@, lower_of(body.email@), body.verification_code@),
            final(self)@ == register_effect(old(self)@, lower_of(body.email@), body.verification_code@),
    {
        let email = to_lowercase(body.email.as_str());
        let vi = match find_viewer_by_email(&self.viewers, &email) {
            Some(i) => i,
            None => return Err(AuthError::NotFound),
        };
        let id = self.viewers[vi].id;
        let pi = match find_pending(&self.pending, id) {
            Some(i) => i,
            None => return Err(AuthError::NotFound),
        };
        match check_token(
            body.verification_code.as_str(),
            self.pending[pi].verification_code_hashed.as_str(),
            self.pending[pi].salt.as_str(),
            self.pending[pi].was_used,
        ) {
            Ok(()) => {},
            Err(e) => return Err(e),
        }
        self.viewers[vi].verified = true;
        self.pending[pi].was_used = true;
        proof {
            let m = old(self)@;
            assert(self@.viewers =~= m.viewers.update(vi as int, Viewer { verified: true, ..m.viewers[vi as int] }));
            assert(self@.pending =~= m.pending.update(pi as int, PendingRegistration { was_used: true, ..m.pending[pi as int] }));
            lemma_update_unique_by(m.viewers, vi as int, self@.viewers[vi as int], viewer_email());
            lemma_update_unique_by(m.viewers, vi as int, self@.viewers[vi as int], viewer_key());
        }
        Ok(id)
    }

    /// Replaces the password of the viewer registered under `body.email`
    /// (compared lowercase) when `body.reset_password_token` matches the
    /// viewer's reset request, storing the new password's digest under
    /// `new_salt`, and uses the request up. No such viewer or request:
    /// `NotFound`; wrong token: `Forbidden`; token used already: `Conflict`.
    pub fn reset_password_with(&mut self, body: &ResetPasswordSchema, new_salt: &str, now: i64) -> (r: Result<u128, AuthError>)
        requires
            old(self)@.wf(),
        ensures
            final(self)@.wf(),
            r == reset_outcome(old(self)@, lower_of(body.email@), body.reset_password_token@),
            r is Ok ==> password_reset_applied(
                old(self)@,
                final(self)@,
                lower_of(body.email@),
                body.password@,
                new_salt@,
                now,
            ),
            r is Err ==> final(self)@ == old(self)@,
    {
        let email = to_lowercase(body.email.as_str());
        let vi = match find_viewer_by_email(&self.viewers, &email) {
            Some(i) => i,
            None => return Err(AuthError::NotFound),
        };
        let id = self.viewers[vi].id;
        let ri = match find_reset(&self.resets, id) {
            Some(i) => i,
            None => return Err(AuthError::NotFound),
        };
        match check_token(
            body.reset_password_token.as_str(),
            self.resets[ri].hashed_reset_password_token.as_str(),
            self.resets[ri].salt.as_str(),
            self.resets[ri].was_used,
        ) {
            Ok(()) => {},
            Err(e) => return Err(e),
        }
        let hashed = hash_secret(body.password.as_str(), new_salt);
        self.viewers[vi].hashed = hashed;
        self.viewers[vi].salt = String::from_str(new_salt);
        self.viewers[vi].updated_at = now;
        self.resets[ri].was_used = true;
        proof {
            let m = old(self)@;
            let nv = self@.viewers[vi as int];
            assert(self@.viewers =~= m.viewers.update(
                vi as int,
                Viewer { hashed: nv.hashed, salt: nv.salt, updated_at: now, ..m.viewers[vi as int] },
            ));
            assert(self@.resets =~= m.resets.update(
                ri as int,
                PasswordResetRequest { was_used: true, ..m.resets[ri as int] },
            ));
            lemma_update_unique_by(m.viewers, vi as int, nv, viewer_email());
            lemma_update_unique_by(m.viewers, vi as int, nv, viewer_key());
            lemma_update_unique_by(m.resets, ri as int, self@.resets[ri as int], reset_owner());
        }
        Ok(id)
    }

    /// `reset_password_with` under a freshly drawn salt.
    pub fn reset_password(&mut self, body: &ResetPasswordSchema, now: i64) -> (r: Result<u128, AuthError>)
        requires
            old(self)@.wf(),
        ensures
            final(self)@.wf(),
            r == reset_outcome(old(self)@, lower_of(body.email@), body.reset_password_token@),
            r is Ok ==> (first_index(old(self)@.viewers, has_email(lower_of(body.email@)))
                matches Some(vi) && password_reset_applied(
                old(self)@,
                final(self)@,
                lower_of(body.email@),
                body.password@,
                final(self)@.viewers[vi].salt@,
                now,
            )),
            r is Err ==> final(self)@ == old(self)@,
    {
        let salt = random_text();
        self.reset_password_with(body, salt.as_str(), now)
    }

    /// Resolves the caller of a request from the session key and secret it
    /// presents, or says why they are not accepted. A key given in the
    /// hyphenated form that a login hands out is read back as that key.
    pub fn authenticate_detailed(&self, session_id: Option<&str>, session_token: Option<&str>) -> (r: Result<AuthenticatedViewer, Rejection>)
        ensures
            r == authentication(self@, text_of(session_id), text_of(session_token)),
            forall|v: u128|
                text_of(session_id) == Some(#[trigger] uuid_text_of(v)) && session_token is Some
                    ==> r == authentication_with_key(self@, v, session_token->0@),
    {
        let token = match session_token {
            Some(t) => t,
            None => return Err(Rejection::MissingToken),
        };
        let text = match session_id {
            Some(t) => t,
            None => return Err(Rejection::MissingId),
        };
        let sid = match parse_uuid(text) {
            Some(v) => v,
            None => return Err(Rejection::MalformedId),
        };
        let si = match find_session(&self.sessions, sid) {
            Some(i) => i,
            None => return Err(Rejection::NoSession),
        };
        if !verify_secret(token, self.sessions[si].salt.as_str(), self.sessions[si].hashed_session_token.as_str()) {
            return Err(Rejection::TokenMismatch);
        }
        let viewer_id = self.sessions[si].viewer_id;
        let vi = match find_viewer_by_id(&self.viewers, viewer_id) {
            Some(i) => i,
            None => return Err(Rejection::NoViewer),
        };
        Ok(AuthenticatedViewer { viewer_id, is_admin: self.viewers[vi].is_admin })
    }

    /// Resolves the caller of a request; every refusal is `Unauthorized`.
    pub fn authenticate(&self, session_id: Option<&str>, session_token: Option<&str>) -> (r: Result<AuthenticatedViewer, AuthError>)
        ensures
            r == client_result(authentication(self@, text_of(session_id), text_of(session_token))),
            forall|v: u128|
                text_of(session_id) == Some(#[trigger] uuid_text_of(v)) && session_token is Some
                    ==> r == client_result(authentication_with_key(self@, v, session_token->0@)),
    {
        match self.authenticate_detailed(session_id, session_token) {
            Ok(a) => Ok(a),
            Err(_) => Err(AuthError::Unauthorized),
        }
    }

    /// Creates an unverified viewer for `body` with the given id, its
    /// password digested under `password_salt`, and a pending registration
    /// for `code` digested under `code_salt`. The email is stored lowercase.
    /// An email in use: `Conflict`; an id in use: `Internal`.
    pub fn pre_register_with(
        &mut self,
        body: &PreRegisterSchema,
        viewer_id: u128,
        password_salt: &str,
        code: &str,
        code_salt: &str,
        now: i64,
    ) -> (r: Result<u128, AuthError>)
        requires
            old(self)@.wf(),
        ensures
            final(self)@.wf(),
            email_taken(old(self)@, lower_of(body.email@)) ==> r == Err::<u128, AuthError>(AuthError::Conflict),
            !email_taken(old(self)@, lower_of(body.email@)) && first_index(old(self)@.viewers, has_viewer_id(viewer_id)) is Some
                ==> r == Err::<u128, AuthError>(AuthError::Internal),
            !email_taken(old(self)@, lower_of(body.email@)) && first_index(old(self)@.viewers, has_viewer_id(viewer_id)) is None
                ==> r == Ok::<u128, AuthError>(viewer_id),
            r is Ok ==> registration_created(
                old(self)@,
                final(self)@,
                viewer_id,
                lower_of(body.email@),
                body.first_name@,
                body.last_name@,
                body.password@,
                password_salt@,
                code@,
                code_salt@,
                now,
            ),
            r is Err ==> final(self)@ == old(self)@,
    {
        let email = to_lowercase(body.email.as_str());
        if find_viewer_by_email(&self.viewers, &email).is_some() {
            return Err(AuthError::Conflict);
        }
        if find_viewer_by_id(&self.viewers, viewer_id).is_some() {
            return Err(AuthError::Internal);
        }
        proof {
            lemma_first_index_none_means_no_row(self@.viewers, has_email(email@));
            lemma_first_index_none_means_no_row(self@.viewers, has_viewer_id(viewer_id));
        }
        let hashed = hash_secret(body.password.as_str(), password_salt);
        let viewer = Viewer {
            id: viewer_id,
            email,
            first_name: body.first_name.clone(),
            last_name: body.last_name.clone(),
            hashed,
            salt: String::from_str(password_salt),
            verified: false,
            is_admin: false,
            created_at: now,
            updated_at: now,
            last_login: None,
        };
        let issued = issue_token(code, code_salt);
        let pending = PendingRegistration {
            viewer_id,
            verification_code_hashed: issued.digest,
            salt: issued.salt,
            was_used: false,
            created_at: now,
        };
        proof {
            lemma_push_unique_by(self@.viewers, viewer, viewer_email());
            lemma_push_unique_by(self@.viewers, viewer, viewer_key());
        }
        self.viewers.push(viewer);
        self.pending.push(pending);
        proof {
            assert(self@.viewers.drop_last() =~= old(self)@.viewers);
            assert(self@.pending.drop_last() =~= old(self)@.pending);
        }
        Ok(viewer_id)
    }

    /// Creates an unverified viewer for `body` under a random id, with random
    /// salts and a random verification code, which is returned for delivery.
    /// An email in use: `Conflict`; otherwise the only failure is a clash of
    /// the drawn id, `Internal`, which cannot happen while the store is empty.
    pub fn pre_register(&mut self, body: &PreRegisterSchema, now: i64) -> (r: Result<PreRegistration, AuthError>)
        requires
            old(self)@.wf(),
        ensures
            final(self)@.wf(),
            email_taken(old(self)@, lower_of(body.email@)) ==> r is Err && r->Err_0 == AuthError::Conflict,
            r matches Err(e) && e == AuthError::Conflict ==> email_taken(old(self)@, lower_of(body.email@)),
            !email_taken(old(self)@, lower_of(body.email@)) && old(self)@.viewers.len() == 0 ==> r is Ok,
            r is Err ==> final(self)@ == old(self)@,
            r is Err ==> (r->Err_0 == AuthError::Conflict || r->Err_0 == AuthError::Internal),
            r matches Ok(reg) ==> {
                &&& !email_taken(old(self)@, lower_of(body.email@))
                &&& reg.email@ == lower_of(body.email@)
                &&& reg.first_name@ == body.first_name@
                &&& registration_created(
                    old(self)@,
                    final(self)@,
                    reg.viewer_id,
                    lower_of(body.email@),
                    body.first_name@,
                    body.last_name@,
                    body.password@,
                    final(self)@.viewers.last().salt@,
                    reg.verification_code@,
                    final(self)@.pending.last().salt@,
                    now,
                )
            },
    {
        let viewer_id = random_uuid();
        let password_salt = random_text();
        let code = random_text();
        let code_salt = random_text();
        proof {
            if self@.viewers.len() == 0 {
                lemma_first_index_none(self@.viewers, has_viewer_id(viewer_id));
            }
        }
        match self.pre_register_with(body, viewer_id, password_salt.as_str(), code.as_str(), code_salt.as_str(), now) {
            Ok(id) => {
                let email = to_lowercase(body.email.as_str());
                Ok(PreRegistration { viewer_id: id, email, first_name: body.first_name.clone(), verification_code: code })
            },
            Err(e) => Err(e),
        }
    }

    /// Opens a session with key `session_id` for `viewer_id`, storing the
    /// digest of `session_token` under `salt`, and records the login time.
    /// An unknown viewer or a key in use: `Internal`.
    pub fn log_user_in_with(
        &mut self,
        viewer_id: u128,
        session_id: u128,
        session_token: &str,
        salt: &str,
        now: i64,
    ) -> (r: Result<(), AuthError>)
        requires
            old(self)@.wf(),
        ensures
            final(self)@.wf(),
            r == open_session_outcome(old(self)@, viewer_id, session_id),
            r is Ok ==> session_opened(old(self)@, final(self)@, viewer_id, session_id, session_token@, salt@, now),
            r is Err ==> final(self)@ == old(self)@,
    {
        let vi = match find_viewer_by_id(&self.viewers, viewer_id) {
            Some(i) => i,
            None => return Err(AuthError::Internal),
        };
        if find_session(&self.sessions, session_id).is_some() {
            return Err(AuthError::Internal);
        }
        proof {
            lemma_first_index_none_means_no_row(self@.sessions, session_with_id(session_id));
        }
        let issued = issue_token(session_token, salt);
        let session = Session {
            id: session_id,
            viewer_id,
            hashed_session_token: issued.digest,
            salt: issued.salt,
            created_at: now,
        };
        proof {
            lemma_push_unique_by(self@.sessions, session, session_key());
        }
        self.sessions.push(session);
        self.viewers[vi].last_login = Some(now);
        proof {
            let m = old(self)@;
            assert(self@.viewers =~= m.viewers.update(vi as int, Viewer { last_login: Some(now), ..m.viewers[vi as int] }));
            assert(self@.sessions.drop_last() =~= m.sessions);
            lemma_update_unique_by(m.viewers, vi as int, self@.viewers[vi as int], viewer_email());
            lemma_update_unique_by(m.viewers, vi as int, self@.viewers[vi as int], viewer_key());
        }
        Ok(())
    }

    /// Opens a session for `viewer_id` under a random key, secret and salt,
    /// and returns the key's text, the secret, and the two cookies for
    /// `domain` that carry them. An unknown viewer: `Internal`; otherwise the
    /// only failure is a clash of the drawn key, `Internal` too, which cannot
    /// happen while there are no sessions.
    pub fn log_user_in(&mut self, viewer_id: u128, domain: &str, now: i64) -> (r: Result<SessionCredentials, AuthError>)
        requires
            old(self)@.wf(),
        ensures
            final(self)@.wf(),
            first_index(old(self)@.viewers, has_viewer_id(viewer_id)) is None ==> r is Err,
            first_index(old(self)@.viewers, has_viewer_id(viewer_id)) is Some && old(self)@.sessions.len() == 0
                ==> r is Ok,
            r matches Err(e) ==> e == AuthError::Internal && final(self)@ == old(self)@,
            r matches Ok(c) ==> credentials_issued(old(self)@, final(self)@, viewer_id, c, domain@, now),
    {
        let session_id = random_uuid();
        let session_token = random_text();
        let salt = random_text();
        proof {
            if self@.sessions.len() == 0 {
                lemma_first_index_none(self@.sessions, session_with_id(session_id));
            }
        }
        match self.log_user_in_with(viewer_id, session_id, session_token.as_str(), salt.as_str(), now) {
            Ok(()) => {
                let id_text = uuid_text(session_id);
                let token_cookie = session_cookie("session_token", session_token.as_str(), domain);
                let id_cookie = session_cookie("session_id", id_text.as_str(), domain);
                proof {
                    reveal_strlit("session_token");
                    reveal_strlit("session_id");
                }
                Ok(SessionCredentials { session_id: id_text, session_token, token_cookie, id_cookie })
            },
            Err(e) => Err(e),
        }
    }

    /// Checks `body`'s password against the viewer registered under its email
    /// (compared lowercase). No such viewer: `NotFound`; wrong password:
    /// `Forbidden`.
    pub fn check_login(&self, body: &LoginSchema) -> (r: Result<u128, AuthError>)
        ensures
            r == login_outcome(self@, lower_of(body.email@), body.password@),
    {
        let email = to_lowercase(body.email.as_str());
        let vi = match find_viewer_by_email(&self.viewers, &email) {
            Some(i) => i,
            None => return Err(AuthError::NotFound),
        };
        if !verify_secret(body.password.as_str(), self.viewers[vi].salt.as_str(), self.viewers[vi].hashed.as_str()) {
            return Err(AuthError::Forbidden);
        }
        proof {
            lemma_first_index_found(self@.viewers, has_viewer_id(self@.viewers[vi as int].id), vi as int);
        }
        Ok(self.viewers[vi].id)
    }

    /// Logs in with `body`'s email and password: on success a new session is
    /// opened beside any the viewer already has, and its credentials and
    /// cookies for `domain` are returned. No such viewer: `NotFound`; wrong
    /// password: `Forbidden`, with nothing changed.
    pub fn login(&mut self, body: &LoginSchema, domain: &str, now: i64) -> (r: Result<SessionCredentials, AuthError>)
        requires
            old(self)@.wf(),
        ensures
            final(self)@.wf(),
            login_outcome(old(self)@, lower_of(body.email@), body.password@) matches Err(e)
                ==> r matches Err(e2) && e2 == e,
            login_outcome(old(self)@, lower_of(body.email@), body.password@) is Ok && old(self)@.sessions.len() == 0
                ==> r is Ok,
            r is Err ==> final(self)@ == old(self)@,
            r matches Err(e) ==> login_outcome(old(self)@, lower_of(body.email@), body.password@) is Err
                || e == AuthError::Internal,
            r matches Ok(c) ==> login_outcome(old(self)@, lower_of(body.email@), body.password@) matches Ok(id)
                && credentials_issued(old(self)@, final(self)@, id, c, domain@, now),
    {
        match self.check_login(body) {
            Ok(id) => {
                proof {
                    let vi = first_index(self@.viewers, has_email(lower_of(body.email@)))->0;
                    lemma_first_index_found(self@.viewers, has_viewer_id(id), vi);
                }
                self.log_user_in(id, domain, now)
            },
            Err(e) => Err(e),
        }
    }

    /// Activates the account as `activate` does, then logs the viewer in:
    /// the session's credentials and cookies for `domain` are returned. The
    /// activation stands even if no session can be opened (`Internal`), which
    /// cannot happen while there are no sessions.
    pub fn register(&mut self, body: &RegisterSchema, domain: &str, now: i64) -> (r: Result<SessionCredentials, AuthError>)
        requires
            old(self)@.wf(),
        ensures
            final(self)@.wf(),
            register_outcome(old(self)@, lower_of(body.email@), body.verification_code@) matches Err(e)
                ==> r matches Err(e2) && e2 == e && final(self)@ == old(self)@,
            register_outcome(old(self)@, lower_of(body.email@), body.verification_code@) is Ok
                && old(self)@.sessions.len() == 0 ==> r is Ok,
            r matches Err(e) ==> register_outcome(old(self)@, lower_of(body.email@), body.verification_code@) is Err
                || (e == AuthError::Internal && final(self)@ == register_effect(
                old(self)@,
                lower_of(body.email@),
                body.verification_code@,
            )),
            r matches Ok(c) ==> register_outcome(old(self)@, lower_of(body.email@), body.verification_code@)
                matches Ok(id) && credentials_issued(
                register_effect(old(self)@, lower_of(body.email@), body.verification_code@),
                final(self)@,
                id,
                c,
                domain@,
                now,
            ),
    {
        match self.activate(body) {
            Ok(id) => {
                proof {
                    let m = old(self)@;
                    let vi = first_index(m.viewers, has_email(lower_of(body.email@)))->0;
                    assert(self@.viewers[vi].id == id);
                    lemma_first_index_found(self@.viewers, has_viewer_id(id), vi);
                }
                self.log_user_in(id, domain, now)
            },
            Err(e) => Err(e),
        }
    }

    /// Ends every session of `viewer_id`, on all devices, and returns how many
    /// there were together with the two cookies for `domain` that clear the
    /// client's credentials.
    pub fn logout(&mut self, viewer_id: u128, domain: &str) -> (r: LogoutOutcome)
        requires
            old(self)@.wf(),
        ensures
            final(self)@.wf(),
            final(self)@.sessions == old(self)@.sessions.filter(session_not_of(viewer_id)),
            final(self)@.viewers == old(self)@.viewers,
            final(self)@.pending == old(self)@.pending,
            final(self)@.resets == old(self)@.resets,
            r.removed == old(self)@.sessions.len() - final(self)@.sessions.len(),
            r.token_cookie@ == cleared_cookie_text("session_token"@, domain@),
            r.id_cookie@ == cleared_cookie_text("session_id"@, domain@),
    {
        let mut kept: Vec<Session> = Vec::new();
        let mut i: usize = 0;
        while i < self.sessions.len()
            invariant
                0 <= i <= self.sessions.len(),
                self@ == old(self)@,
                kept@ == self.sessions@.subrange(0, i as int).filter(session_not_of(viewer_id)),
            decreases self.sessions.len() - i,
        {
            proof {
                reveal(Seq::filter);
                assert(self.sessions@.subrange(0, i as int + 1).drop_last() =~= self.sessions@.subrange(0, i as int));
                self.sessions@.subrange(0, i as int).lemma_filter_len(session_not_of(viewer_id));
            }
            if self.sessions[i].viewer_id != viewer_id {
                kept.push(self.sessions[i].copy_row());
            }
            i += 1;
        }
        proof {
            assert(self.sessions@.subrange(0, self.sessions@.len() as int) =~= self.sessions@);
            self.sessions@.lemma_filter_len(session_not_of(viewer_id));
            lemma_filter_unique_by(self.sessions@, session_not_of(viewer_id), session_key());
        }
        let removed = self.sessions.len() - kept.len();
        self.sessions = kept;
        proof {
            reveal_strlit("session_token");
            reveal_strlit("session_id");
        }
        LogoutOutcome {
            removed,
            token_cookie: cleared_cookie("session_token", domain),
            id_cookie: cleared_cookie("session_id", domain),
        }
    }

    /// Rotates the reset token of the viewer registered under `body.email`
    /// (compared lowercase): every earlier reset row of the viewer is deleted
    /// and one row for `token` digested under `salt` is added. No such
    /// viewer: `NotFound`.
    pub fn pre_reset_password_with(
        &mut self,
        body: &PreResetPasswordSchema,
        token: &str,
        salt: &str,
        now: i64,
    ) -> (r: Result<u128, AuthError>)
        requires
            old(self)@.wf(),
        ensures
            final(self)@.wf(),
            r == reset_request_outcome(old(self)@, lower_of(body.email@)),
            r matches Ok(id) ==> reset_issued(old(self)@, final(self)@, id, token@, salt@, now),
            r is Err ==> final(self)@ == old(self)@,
    {
        let email = to_lowercase(body.email.as_str());
        let vi = match find_viewer_by_email(&self.viewers, &email) {
            Some(i) => i,
            None => return Err(AuthError::NotFound),
        };
        let viewer_id = self.viewers[vi].id;
        let mut kept: Vec<PasswordResetRequest> = Vec::new();
        let mut i: usize = 0;
        while i < self.resets.len()
            invariant
                0 <= i <= self.resets.len(),
                self@ == old(self)@,
                kept@ == self.resets@.subrange(0, i as int).filter(reset_not_of(viewer_id)),
            decreases self.resets.len() - i,
        {
            proof {
                reveal(Seq::filter);
                assert(self.resets@.subrange(0, i as int + 1).drop_last() =~= self.resets@.subrange(0, i as int));
            }
            if self.resets[i].viewer_id != viewer_id {
                kept.push(self.resets[i].copy_row());
            }
            i += 1;
        }
        proof {
            assert(self.resets@.subrange(0, self.resets@.len() as int) =~= self.resets@);
            lemma_filter_unique_by(self.resets@, reset_not_of(viewer_id), reset_owner());
            self.resets@.filter_lemma(reset_not_of(viewer_id));
        }
        let issued = issue_token(token, salt);
        let row = PasswordResetRequest {
            viewer_id,
            hashed_reset_password_token: issued.digest,
            salt: issued.salt,
            was_used: false,
            created_at: now,
        };
        proof {
            assert forall|j: int| 0 <= j < kept@.len() implies reset_owner()(#[trigger] kept@[j]) != reset_owner()(row) by {
                assert(reset_not_of(viewer_id)(kept@[j]));
            }
            lemma_push_unique_by(kept@, row, reset_owner());
        }
        kept.push(row);
        self.resets = kept;
        proof {
            assert(self@.resets.drop_last() =~= old(self)@.resets.filter(reset_not_of(viewer_id)));
        }
        Ok(viewer_id)
    }

    /// Rotates the reset token of the viewer registered under `body.email`
    /// to a random one, returned for delivery together with the viewer's
    /// address and first name. No such viewer: `NotFound`; for every viewer
    /// that exists the rotation succeeds.
    pub fn pre_reset_password(&mut self, body: &PreResetPasswordSchema, now: i64) -> (r: Result<ResetNotice, AuthError>)
        requires
            old(self)@.wf(),
        ensures
            final(self)@.wf(),
            reset_request_outcome(old(self)@, lower_of(body.email@)) matches Err(e) ==> r matches Err(e2) && e2 == e,
            reset_request_outcome(old(self)@, lower_of(body.email@)) is Ok ==> r is Ok,
            r is Err ==> final(self)@ == old(self)@,
            r matches Ok(n) ==> {
                &&& reset_request_outcome(old(self)@, lower_of(body.email@)) == Ok::<u128, AuthError>(n.viewer_id)
                &&& reset_issued(
                    old(self)@,
                    final(self)@,
                    n.viewer_id,
                    n.reset_password_token@,
                    final(self)@.resets.last().salt@,
                    now,
                )
                &&& first_index(old(self)@.viewers, has_email(lower_of(body.email@))) matches Some(vi)
                    && n.email@ == old(self)@.viewers[vi].email@
                    && n.first_name@ == old(self)@.viewers[vi].first_name@
            },
    {
        let email = to_lowercase(body.email.as_str());
        let vi = match find_viewer_by_email(&self.viewers, &email) {
            Some(i) => i,
            None => return Err(AuthError::NotFound),
        };
        let address = self.viewers[vi].email.clone();
        let first_name = self.viewers[vi].first_name.clone();
        let token = random_text();
        let salt = random_text();
        match self.pre_reset_password_with(body, token.as_str(), salt.as_str(), now) {
            Ok(id) => Ok(ResetNotice { viewer_id: id, email: address, first_name, reset_password_token: token }),
            Err(e) => Err(e),
        }
    }

    /// The viewer registered under `email` (compared lowercase). None:
    /// `NotFound`.
    pub fn get_viewer(&self, email: &str) -> (r: Result<&Viewer, AuthError>)
        ensures
            match first_index(self@.viewers, has_email(lower_of(email@))) {
                Some(vi) => r == Ok::<&Viewer, AuthError>(&self@.viewers[vi]),
                None => r == Err::<&Viewer, AuthError>(AuthError::NotFound),
            },
    {
        let lower = to_lowercase(email);
        match find_viewer_by_email(&self.viewers, &lower) {
            Some(i) => Ok(&self.viewers[i]),
            None => Err(AuthError::NotFound),
        }
    }

    /// The viewer with id `viewer_id`. None: `NotFound`.
    pub fn get_viewer_by_id(&self, viewer_id: u128) -> (r: Result<&Viewer, AuthError>)
        ensures
            match first_index(self@.viewers, has_viewer_id(viewer_id)) {
                Some(vi) => r == Ok::<&Viewer, AuthError>(&self@.viewers[vi]),
                None => r == Err::<&Viewer, AuthError>(AuthError::NotFound),
            },
    {
        match find_viewer_by_id(&self.viewers, viewer_id) {
            Some(i) => Ok(&self.viewers[i]),
            None => Err(AuthError::NotFound),
        }
    }
}

} // verus!