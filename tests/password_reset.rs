use viewer_auth::error::AuthError;
use viewer_auth::schema::{LoginSchema, PreRegisterSchema, PreResetPasswordSchema, ResetPasswordSchema};
use viewer_auth::store::AuthStore;

fn store_with_viewer() -> AuthStore {
    let mut store = AuthStore::new();
    let body = PreRegisterSchema {
        email: "a@b.com".to_string(),
        first_name: "A".to_string(),
        last_name: "B".to_string(),
        password: "pw1".to_string(),
    };
    store.pre_register(&body, 1).unwrap();
    store
}

fn pre_reset(email: &str) -> PreResetPasswordSchema {
    PreResetPasswordSchema { email: email.to_string() }
}

fn reset(email: &str, token: &str, password: &str) -> ResetPasswordSchema {
    ResetPasswordSchema {
        email: email.to_string(),
        password: password.to_string(),
        reset_password_token: token.to_string(),
    }
}

fn login(email: &str, password: &str) -> LoginSchema {
    LoginSchema { email: email.to_string(), password: password.to_string() }
}

#[test]
fn reset_scenario() {
    let mut store = store_with_viewer();
    let t1 = store.pre_reset_password(&pre_reset("a@b.com"), 10).unwrap();
    assert_eq!(t1.email, "a@b.com");
    assert_eq!(t1.first_name, "A");
    let t2 = store.pre_reset_password(&pre_reset("a@b.com"), 11).unwrap();
    assert_ne!(t1.reset_password_token, t2.reset_password_token);

    let stale = store.reset_password(&reset("a@b.com", &t1.reset_password_token, "newpw"), 12);
    assert_eq!(stale, Err(AuthError::Forbidden));

    let ok = store.reset_password(&reset("a@b.com", &t2.reset_password_token, "newpw"), 13);
    assert_eq!(ok, Ok(t2.viewer_id));
    assert_eq!(store.get_viewer("a@b.com").unwrap().updated_at, 13);
    assert!(store.login(&login("a@b.com", "newpw"), "example.org", 14).is_ok());
    assert!(matches!(store.login(&login("a@b.com", "pw1"), "example.org", 15), Err(AuthError::Forbidden)));

    let replay = store.reset_password(&reset("a@b.com", &t2.reset_password_token, "other"), 16);
    assert_eq!(replay, Err(AuthError::Conflict));
    assert!(store.login(&login("a@b.com", "newpw"), "example.org", 17).is_ok());
}

#[test]
fn reset_with_fixed_values() {
    let mut store = store_with_viewer();
    let id = store.get_viewer("a@b.com").unwrap().id;
    assert_eq!(store.pre_reset_password_with(&pre_reset("A@b.com"), "tok", "s", 1), Ok(id));
    assert_eq!(
        store.reset_password_with(&reset("a@b.com", "tok", "pw1"), "salt-1", 2),
        Ok(id)
    );
    let v = store.get_viewer("a@b.com").unwrap();
    assert_eq!(v.salt, "salt-1");
    assert_eq!(v.hashed, "fd612a97ec0abe82dacb8fa58e02c5b29ada5ad456feb5c516a723c2587d96d3");
}

#[test]
fn reset_unknown_viewer_or_request_is_not_found() {
    let mut store = store_with_viewer();
    assert!(matches!(store.pre_reset_password(&pre_reset("x@b.com"), 1), Err(AuthError::NotFound)));
    assert_eq!(store.reset_password(&reset("x@b.com", "t", "p"), 1), Err(AuthError::NotFound));
    assert_eq!(store.reset_password(&reset("a@b.com", "t", "p"), 1), Err(AuthError::NotFound));
}

#[test]
fn reset_request_supersedes_whatever_the_email_case() {
    let mut store = store_with_viewer();
    let id = store.get_viewer("a@b.com").unwrap().id;
    assert_eq!(store.pre_reset_password_with(&pre_reset("a@b.com"), "t1", "s", 1), Ok(id));
    assert_eq!(store.pre_reset_password_with(&pre_reset("A@B.COM"), "t2", "s", 2), Ok(id));
    assert_eq!(store.reset_password(&reset("a@b.com", "t1", "p"), 3), Err(AuthError::Forbidden));
    assert_eq!(store.reset_password(&reset("a@b.com", "t2", "p"), 4), Ok(id));
}
