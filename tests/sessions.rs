use viewer_auth::error::AuthError;
use viewer_auth::model::{AuthenticatedViewer, Rejection};
use viewer_auth::schema::{LoginSchema, PreRegisterSchema};
use viewer_auth::session::{cleared_cookie, require_admin, session_cookie};
use viewer_auth::store::AuthStore;

fn store_with_viewer() -> (AuthStore, u128) {
    let mut store = AuthStore::new();
    let body = PreRegisterSchema {
        email: "a@b.com".to_string(),
        first_name: "A".to_string(),
        last_name: "B".to_string(),
        password: "pw1".to_string(),
    };
    let r = store.pre_register(&body, 1).unwrap();
    (store, r.viewer_id)
}

fn login(email: &str, password: &str) -> LoginSchema {
    LoginSchema { email: email.to_string(), password: password.to_string() }
}

#[test]
fn login_scenario() {
    let (mut store, id) = store_with_viewer();
    let creds = store.login(&login("a@b.com", "pw1"), "example.org", 50).unwrap();
    assert_eq!(creds.session_id.len(), 36);
    assert_eq!(creds.session_token.len(), 36);
    assert_eq!(creds.token_cookie, session_cookie("session_token", &creds.session_token, "example.org"));
    assert_eq!(creds.id_cookie, session_cookie("session_id", &creds.session_id, "example.org"));
    assert!(creds.token_cookie.starts_with("session_token="));
    assert!(creds.id_cookie.ends_with("; Max-Age=604800"));
    assert_eq!(store.get_viewer("a@b.com").unwrap().last_login, Some(50));
    let who = store.authenticate(Some(&creds.session_id), Some(&creds.session_token));
    assert_eq!(who, Ok(AuthenticatedViewer { viewer_id: id, is_admin: false }));

    let wrong = store.login(&login("a@b.com", "wrong"), "example.org", 60);
    assert!(matches!(wrong, Err(AuthError::Forbidden)));
    assert_eq!(store.get_viewer("a@b.com").unwrap().last_login, Some(50));
}

#[test]
fn login_unknown_email_is_not_found() {
    let (mut store, _) = store_with_viewer();
    assert!(matches!(store.login(&login("x@b.com", "pw1"), "example.org", 1), Err(AuthError::NotFound)));
    assert_eq!(store.check_login(&login("A@B.COM", "pw1")).is_ok(), true);
}

#[test]
fn authentication_rejections() {
    let (mut store, _) = store_with_viewer();
    let creds = store.login(&login("a@b.com", "pw1"), "example.org", 1).unwrap();
    let id = creds.session_id.as_str();
    let token = creds.session_token.as_str();
    assert_eq!(store.authenticate_detailed(Some(id), None), Err(Rejection::MissingToken));
    assert_eq!(store.authenticate_detailed(None, Some(token)), Err(Rejection::MissingId));
    assert_eq!(store.authenticate_detailed(Some("not-a-uuid"), Some(token)), Err(Rejection::MalformedId));
    let unknown = "123e4567-e89b-12d3-a456-426614174000";
    assert_eq!(store.authenticate_detailed(Some(unknown), Some(token)), Err(Rejection::NoSession));
    assert_eq!(store.authenticate_detailed(Some(id), Some("other")), Err(Rejection::TokenMismatch));
    assert!(store.authenticate_detailed(Some(id), Some(token)).is_ok());
}

#[test]
fn unknown_session_and_wrong_token_look_alike() {
    let (mut store, _) = store_with_viewer();
    let creds = store.login(&login("a@b.com", "pw1"), "example.org", 1).unwrap();
    let unknown = "123e4567-e89b-12d3-a456-426614174000";
    let a = store.authenticate(Some(unknown), Some(&creds.session_token));
    let b = store.authenticate(Some(&creds.session_id), Some("other"));
    assert_eq!(a, Err(AuthError::Unauthorized));
    assert_eq!(a, b);
    assert_eq!(a.unwrap_err().status_code(), 401);
    assert_ne!(Rejection::NoSession.log_message(), Rejection::TokenMismatch.log_message());
}

#[test]
fn logout_ends_every_session_of_the_viewer() {
    let (mut store, id) = store_with_viewer();
    let first = store.login(&login("a@b.com", "pw1"), "example.org", 1).unwrap();
    let second = store.login(&login("a@b.com", "pw1"), "example.org", 2).unwrap();
    assert!(store.authenticate(Some(&first.session_id), Some(&first.session_token)).is_ok());
    assert!(store.authenticate(Some(&second.session_id), Some(&second.session_token)).is_ok());
    let out = store.logout(id, "example.org");
    assert_eq!(out.removed, 2);
    assert_eq!(out.token_cookie, cleared_cookie("session_token", "example.org"));
    assert_eq!(out.id_cookie, "session_id=; HttpOnly; Secure; Path=/; Domain=example.org; SameSite=Lax; Max-Age=0");
    assert_eq!(
        store.authenticate(Some(&first.session_id), Some(&first.session_token)),
        Err(AuthError::Unauthorized)
    );
    assert_eq!(
        store.authenticate(Some(&second.session_id), Some(&second.session_token)),
        Err(AuthError::Unauthorized)
    );
    assert_eq!(store.logout(id, "example.org").removed, 0);
}

#[test]
fn logout_keeps_other_viewers_sessions() {
    let (mut store, id) = store_with_viewer();
    let body = PreRegisterSchema {
        email: "c@d.com".to_string(),
        first_name: "C".to_string(),
        last_name: "D".to_string(),
        password: "pw2".to_string(),
    };
    store.pre_register(&body, 1).unwrap();
    let mine = store.login(&login("a@b.com", "pw1"), "example.org", 1).unwrap();
    let theirs = store.login(&login("c@d.com", "pw2"), "example.org", 1).unwrap();
    assert_eq!(store.logout(id, "example.org").removed, 1);
    assert!(store.authenticate(Some(&mine.session_id), Some(&mine.session_token)).is_err());
    assert!(store.authenticate(Some(&theirs.session_id), Some(&theirs.session_token)).is_ok());
}

#[test]
fn log_user_in_with_fixed_values() {
    let (mut store, id) = store_with_viewer();
    assert_eq!(store.log_user_in_with(id, 42, "tok", "salt", 3), Ok(()));
    assert_eq!(store.log_user_in_with(id, 42, "tok2", "salt", 4), Err(AuthError::Internal));
    assert_eq!(store.log_user_in_with(id + 1, 43, "tok", "salt", 4), Err(AuthError::Internal));
    let text = "00000000-0000-0000-0000-00000000002a";
    assert!(store.authenticate(Some(text), Some("tok")).is_ok());
    assert!(store.log_user_in(id + 1, "example.org", 5).is_err());
}

#[test]
fn admin_gate() {
    let admin = AuthenticatedViewer { viewer_id: 1, is_admin: true };
    let plain = AuthenticatedViewer { viewer_id: 2, is_admin: false };
    assert_eq!(require_admin(&admin), Ok(()));
    assert_eq!(require_admin(&plain), Err(AuthError::Forbidden));
}

#[test]
fn session_cookie_attributes() {
    assert_eq!(
        session_cookie("session_token", "abc", "example.org"),
        "session_token=abc; HttpOnly; Secure; Path=/; Domain=example.org; SameSite=Lax; Max-Age=604800"
    );
    assert_eq!(
        cleared_cookie("session_id", "example.org"),
        "session_id=; HttpOnly; Secure; Path=/; Domain=example.org; SameSite=Lax; Max-Age=0"
    );
}

#[test]
fn session_id_is_hyphenated_lowercase_identifier() {
    let (mut store, _) = store_with_viewer();
    let creds = store.login(&login("a@b.com", "pw1"), "example.org", 1).unwrap();
    let chars: Vec<char> = creds.session_id.chars().collect();
    assert_eq!(chars.len(), 36);
    for (i, c) in chars.iter().enumerate() {
        if i == 8 || i == 13 || i == 18 || i == 23 {
            assert_eq!(*c, '-');
        } else {
            assert!(c.is_ascii_hexdigit() && !c.is_ascii_uppercase());
        }
    }
    assert_ne!(creds.session_id, creds.session_token);
}
