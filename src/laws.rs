//! Properties of the credential lifecycle that hold across calls.
use vstd::prelude::*;

use crate::digest::digest_of;
use crate::error::AuthError;
use crate::model::{
    authentication, authentication_with_key, client_result, has_viewer_id, open_session_outcome,
    session_opened, AuthenticatedViewer, has_email, login_outcome, password_reset_applied, register_effect,
    register_outcome, reset_issued, reset_not_of, reset_of, reset_outcome, reset_request_outcome,
    session_not_of, session_with_id, Rejection, StoreModel,
};
use crate::table::{first_index, is_first, lemma_first_index_is, lemma_first_index_none_means_no_row};

verus! {

/// A verification code that activated an account never activates it again:
/// presenting the same code a second time yields `Conflict`.
pub proof fn lemma_registration_single_use(m: StoreModel, email: Seq<char>, code: Seq<char>)
    requires
        register_outcome(m, email, code) is Ok,
    ensures
        register_outcome(register_effect(m, email, code), email, code) == Err::<u128, AuthError>(
            AuthError::Conflict,
        ),
{
    let vi = first_index(m.viewers, has_email(email))->0;
    let id = m.viewers[vi].id;
    let pi = first_index(m.pending, crate::model::pending_of(id))->0;
    let n = register_effect(m, email, code);
    assert(is_first(m.viewers, has_email(email), vi));
    assert(is_first(n.viewers, has_email(email), vi)) by {
        assert forall|j: int| 0 <= j < vi implies !has_email(email)(#[trigger] n.viewers[j]) by {
            assert(n.viewers[j] == m.viewers[j]);
        }
    }
    lemma_first_index_is(n.viewers, has_email(email), vi);
    assert(is_first(m.pending, crate::model::pending_of(id), pi));
    assert(is_first(n.pending, crate::model::pending_of(id), pi)) by {
        assert forall|j: int| 0 <= j < pi implies !crate::model::pending_of(id)(#[trigger] n.pending[j]) by {
            assert(n.pending[j] == m.pending[j]);
        }
    }
    lemma_first_index_is(n.pending, crate::model::pending_of(id), pi);
}

/// A reset token that replaced a password never replaces it again: presenting
/// the same token a second time yields `Conflict`.
pub proof fn lemma_reset_single_use(
    old: StoreModel,
    new: StoreModel,
    email: Seq<char>,
    token: Seq<char>,
    password: Seq<char>,
    salt: Seq<char>,
    now: i64,
)
    requires
        reset_outcome(old, email, token) is Ok,
        password_reset_applied(old, new, email, password, salt, now),
    ensures
        reset_outcome(new, email, token) == Err::<u128, AuthError>(AuthError::Conflict),
{
    let vi = first_index(old.viewers, has_email(email))->0;
    let id = old.viewers[vi].id;
    let ri = first_index(old.resets, reset_of(id))->0;
    assert(is_first(old.viewers, has_email(email), vi));
    assert(is_first(new.viewers, has_email(email), vi)) by {
        assert forall|j: int| 0 <= j < vi implies !has_email(email)(#[trigger] new.viewers[j]) by {
            assert(new.viewers[j] == old.viewers[j]);
        }
    }
    lemma_first_index_is(new.viewers, has_email(email), vi);
    assert(is_first(old.resets, reset_of(id), ri));
    assert(is_first(new.resets, reset_of(id), ri)) by {
        assert forall|j: int| 0 <= j < ri implies !reset_of(id)(#[trigger] new.resets[j]) by {
            assert(new.resets[j] == old.resets[j]);
        }
    }
    lemma_first_index_is(new.resets, reset_of(id), ri);
}

/// After a successful reset, the new password logs the viewer in.
pub proof fn lemma_reset_password_logs_in(
    old: StoreModel,
    new: StoreModel,
    email: Seq<char>,
    token: Seq<char>,
    password: Seq<char>,
    salt: Seq<char>,
    now: i64,
)
    requires
        reset_outcome(old, email, token) is Ok,
        password_reset_applied(old, new, email, password, salt, now),
    ensures
        login_outcome(new, email, password) == reset_outcome(old, email, token),
{
    let vi = first_index(old.viewers, has_email(email))->0;
    assert(is_first(old.viewers, has_email(email), vi));
    assert(is_first(new.viewers, has_email(email), vi)) by {
        assert forall|j: int| 0 <= j < vi implies !has_email(email)(#[trigger] new.viewers[j]) by {
            assert(new.viewers[j] == old.viewers[j]);
        }
    }
    lemma_first_index_is(new.viewers, has_email(email), vi);
}

/// After a reset token is issued, the viewer has no other reset row: every
/// earlier token is gone, and a reset for that viewer succeeds only with a
/// token whose digest under the new salt is that of the new token.
pub proof fn lemma_reset_supersedes(
    old: StoreModel,
    new: StoreModel,
    email: Seq<char>,
    viewer_id: u128,
    token: Seq<char>,
    salt: Seq<char>,
    now: i64,
    presented: Seq<char>,
)
    requires
        reset_request_outcome(old, email) == Ok::<u128, AuthError>(viewer_id),
        reset_issued(old, new, viewer_id, token, salt, now),
    ensures
        forall|j: int|
            0 <= j < new.resets.len() && #[trigger] new.resets[j].viewer_id == viewer_id ==> j
                == new.resets.len() - 1,
        reset_outcome(new, email, presented) is Ok ==> digest_of(presented, salt) == digest_of(
            token,
            salt,
        ),
{
    let last = new.resets.len() - 1;
    let kept = old.resets.filter(reset_not_of(viewer_id));
    assert forall|j: int|
        0 <= j < new.resets.len() && #[trigger] new.resets[j].viewer_id == viewer_id implies j
        == last by {
        if j < last {
            assert(new.resets[j] == kept[j]);
            kept.lemma_filter_pred(reset_not_of(viewer_id), j);
        }
    }
    assert(is_first(new.resets, reset_of(viewer_id), last));
    lemma_first_index_is(new.resets, reset_of(viewer_id), last);
}

/// A session opened for a viewer authenticates that viewer when its key is
/// presented with the secret it was opened with.
pub proof fn lemma_opened_session_authenticates(
    old: StoreModel,
    new: StoreModel,
    viewer_id: u128,
    session_id: u128,
    token: Seq<char>,
    salt: Seq<char>,
    now: i64,
)
    requires
        open_session_outcome(old, viewer_id, session_id) is Ok,
        session_opened(old, new, viewer_id, session_id, token, salt, now),
    ensures
        first_index(old.viewers, has_viewer_id(viewer_id)) matches Some(vi) && authentication_with_key(
            new,
            session_id,
            token,
        ) == Ok::<AuthenticatedViewer, Rejection>(
            AuthenticatedViewer { viewer_id, is_admin: old.viewers[vi].is_admin },
        ),
{
    let vi = first_index(old.viewers, has_viewer_id(viewer_id))->0;
    let last = new.sessions.len() - 1;
    lemma_first_index_none_means_no_row(old.sessions, session_with_id(session_id));
    assert forall|j: int| 0 <= j < last implies !session_with_id(session_id)(#[trigger] new.sessions[j]) by {
        assert(new.sessions[j] == new.sessions.drop_last()[j]);
    }
    assert(is_first(new.sessions, session_with_id(session_id), last));
    lemma_first_index_is(new.sessions, session_with_id(session_id), last);
    assert(is_first(old.viewers, has_viewer_id(viewer_id), vi));
    assert(is_first(new.viewers, has_viewer_id(viewer_id), vi)) by {
        assert forall|j: int| 0 <= j < vi implies !has_viewer_id(viewer_id)(#[trigger] new.viewers[j]) by {
            assert(new.viewers[j] == old.viewers[j]);
        }
    }
    lemma_first_index_is(new.viewers, has_viewer_id(viewer_id), vi);
}

/// Logging a viewer out ends all of its sessions: afterwards no presented
/// session key and secret, whichever device they were issued to, resolve to
/// that viewer.
pub proof fn lemma_logout_ends_all_sessions(
    old: StoreModel,
    new: StoreModel,
    viewer_id: u128,
    session_id: Option<Seq<char>>,
    session_token: Option<Seq<char>>,
)
    requires
        new.sessions == old.sessions.filter(session_not_of(viewer_id)),
    ensures
        authentication(new, session_id, session_token) matches Ok(a) ==> a.viewer_id != viewer_id,
{
    if let Ok(a) = authentication(new, session_id, session_token) {
        let sid = crate::ids::uuid_parse_of(session_id->0)->0;
        let si = first_index(new.sessions, session_with_id(sid))->0;
        old.sessions.lemma_filter_pred(session_not_of(viewer_id), si);
    }
}

/// A session key with no session and a secret that does not match its session
/// are both answered with `Unauthorized`: a client cannot tell them apart,
/// while the logged reasons differ.
pub proof fn lemma_rejections_look_alike(
    m: StoreModel,
    unknown_id: Option<Seq<char>>,
    unknown_token: Option<Seq<char>>,
    known_id: Option<Seq<char>>,
    wrong_token: Option<Seq<char>>,
)
    requires
        authentication(m, unknown_id, unknown_token) == Err::<crate::model::AuthenticatedViewer, Rejection>(
            Rejection::NoSession,
        ),
        authentication(m, known_id, wrong_token) == Err::<crate::model::AuthenticatedViewer, Rejection>(
            Rejection::TokenMismatch,
        ),
    ensures
        client_result(authentication(m, unknown_id, unknown_token)) == client_result(
            authentication(m, known_id, wrong_token),
        ),
        client_result(authentication(m, unknown_id, unknown_token)) == Err::<
            crate::model::AuthenticatedViewer,
            AuthError,
        >(AuthError::Unauthorized),
        authentication(m, unknown_id, unknown_token) != authentication(m, known_id, wrong_token),
{
}

} // verus!
