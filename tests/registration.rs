use viewer_auth::digest::hash_secret;
use viewer_auth::error::AuthError;
use viewer_auth::schema::{PreRegisterSchema, RegisterSchema};
use viewer_auth::store::AuthStore;

fn pre(email: &str, password: &str) -> PreRegisterSchema {
    PreRegisterSchema {
        email: email.to_string(),
        first_name: "A".to_string(),
        last_name: "B".to_string(),
        password: password.to_string(),
    }
}

fn reg(email: &str, code: &str) -> RegisterSchema {
    RegisterSchema { verification_code: code.to_string(), email: email.to_string() }
}

#[test]
fn registration_scenario() {
    let mut store = AuthStore::new();
    let r = store.pre_register(&pre("a@b.com", "pw1"), 100).unwrap();
    assert_eq!(r.email, "a@b.com");
    assert_eq!(r.first_name, "A");
    let v = store.get_viewer("a@b.com").unwrap();
    assert!(!v.verified);
    assert!(!v.is_admin);
    assert_eq!(v.id, r.viewer_id);
    assert_eq!(v.hashed, hash_secret("pw1", &v.salt));

    let wrong = store.register(&reg("a@b.com", "wrong-code"), "example.org", 101);
    assert!(matches!(wrong, Err(AuthError::Forbidden)));
    assert_eq!(AuthError::Forbidden.status_code(), 403);
    assert!(!store.get_viewer("a@b.com").unwrap().verified);

    let creds = store.register(&reg("a@b.com", &r.verification_code), "example.org", 102).unwrap();
    assert!(store.get_viewer("a@b.com").unwrap().verified);
    assert_eq!(store.get_viewer("a@b.com").unwrap().last_login, Some(102));
    assert_eq!(
        creds.token_cookie,
        format!(
            "session_token={}; HttpOnly; Secure; Path=/; Domain=example.org; SameSite=Lax; Max-Age=604800",
            creds.session_token
        )
    );
    assert_eq!(
        creds.id_cookie,
        format!(
            "session_id={}; HttpOnly; Secure; Path=/; Domain=example.org; SameSite=Lax; Max-Age=604800",
            creds.session_id
        )
    );
    let who = store.authenticate(Some(&creds.session_id), Some(&creds.session_token)).unwrap();
    assert_eq!(who.viewer_id, r.viewer_id);

    let again = store.register(&reg("a@b.com", &r.verification_code), "example.org", 103);
    assert!(matches!(again, Err(AuthError::Conflict)));
    assert_eq!(AuthError::Conflict.status_code(), 409);
}

#[test]
fn registration_with_fixed_values() {
    let mut store = AuthStore::new();
    assert_eq!(store.pre_register_with(&pre("x@y.org", "pw1"), 7, "salt-1", "code", "s", 5), Ok(7));
    let v = store.get_viewer("x@y.org").unwrap();
    assert_eq!(v.hashed, "fd612a97ec0abe82dacb8fa58e02c5b29ada5ad456feb5c516a723c2587d96d3");
    assert_eq!(v.salt, "salt-1");
    assert_eq!(v.created_at, 5);
    assert_eq!(v.last_login, None);
    assert_eq!(store.activate(&reg("x@y.org", "code")), Ok(7));
}

#[test]
fn pre_register_duplicate_email_conflicts() {
    let mut store = AuthStore::new();
    assert!(store.pre_register(&pre("a@b.com", "pw1"), 1).is_ok());
    let dup = store.pre_register(&pre("A@B.com", "other"), 2);
    assert!(matches!(dup, Err(AuthError::Conflict)));
    assert_eq!(store.get_viewer("a@b.com").unwrap().hashed.len(), 64);
}

#[test]
fn pre_register_stores_lowercase_email() {
    let mut store = AuthStore::new();
    let r = store.pre_register(&pre("Mixed@Case.COM", "pw1"), 1).unwrap();
    assert_eq!(r.email, "mixed@case.com");
    assert_eq!(store.get_viewer("mixed@case.com").unwrap().email, "mixed@case.com");
    assert_eq!(store.activate(&reg("MIXED@case.com", &r.verification_code)), Ok(r.viewer_id));
}

#[test]
fn pre_register_id_clash_is_internal() {
    let mut store = AuthStore::new();
    assert_eq!(store.pre_register_with(&pre("a@b.com", "pw"), 9, "s1", "c1", "s2", 1), Ok(9));
    assert_eq!(
        store.pre_register_with(&pre("c@d.com", "pw"), 9, "s1", "c1", "s2", 1),
        Err(AuthError::Internal)
    );
    assert_eq!(store.get_viewer("c@d.com").err(), Some(AuthError::NotFound));
}

#[test]
fn register_unknown_email_is_not_found() {
    let mut store = AuthStore::new();
    assert_eq!(store.activate(&reg("nobody@b.com", "x")), Err(AuthError::NotFound));
    assert!(matches!(store.register(&reg("nobody@b.com", "x"), "d", 1), Err(AuthError::NotFound)));
}
