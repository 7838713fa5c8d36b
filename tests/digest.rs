use viewer_auth::digest::{hash_secret, verify_secret};
use viewer_auth::error::AuthError;
use viewer_auth::token::{check_token, issue_token};

#[test]
fn hash_secret_is_sha256_hex_of_secret_then_salt() {
    assert_eq!(
        hash_secret("ab", "c"),
        "ba7816bf8f01cfea414140de5dae2223b00361a396177a9cb410ff61f20015ad"
    );
    assert_eq!(
        hash_secret("", ""),
        "e3b0c44298fc1c149afbf4c8996fb92427ae41e4649b934ca495991b7852b855"
    );
}

#[test]
fn hash_secret_is_deterministic() {
    assert_eq!(hash_secret("pw1", "salt-1"), hash_secret("pw1", "salt-1"));
    assert_eq!(
        hash_secret("pw1", "salt-1"),
        "fd612a97ec0abe82dacb8fa58e02c5b29ada5ad456feb5c516a723c2587d96d3"
    );
}

#[test]
fn hash_secret_differs_by_salt() {
    assert_eq!(
        hash_secret("pw1", "salt-2"),
        "59d964b7636656675e5ee2581542bc649c09ada72d7c14ce033665df8642d297"
    );
    assert_ne!(hash_secret("pw1", "salt-1"), hash_secret("pw1", "salt-2"));
}

#[test]
fn verify_secret_compares_digests() {
    let d = hash_secret("pw1", "salt-1");
    assert!(verify_secret("pw1", "salt-1", &d));
    assert!(!verify_secret("pw2", "salt-1", &d));
    assert!(!verify_secret("pw1", "salt-2", &d));
}

#[test]
fn error_status_codes() {
    assert_eq!(AuthError::NotFound.status_code(), 404);
    assert_eq!(AuthError::Forbidden.status_code(), 403);
    assert_eq!(AuthError::Conflict.status_code(), 409);
    assert_eq!(AuthError::Unauthorized.status_code(), 401);
    assert_eq!(AuthError::Internal.status_code(), 500);
}

#[test]
fn issued_token_keeps_only_a_digest_to_compare() {
    let t = issue_token("pw1", "salt-1");
    assert_eq!(t.plaintext, "pw1");
    assert_eq!(t.salt, "salt-1");
    assert_eq!(t.digest, "fd612a97ec0abe82dacb8fa58e02c5b29ada5ad456feb5c516a723c2587d96d3");
    assert_eq!(check_token("pw1", &t.digest, &t.salt, false), Ok(()));
    assert_eq!(check_token("pw2", &t.digest, &t.salt, false), Err(AuthError::Forbidden));
    assert_eq!(check_token("pw1", &t.digest, &t.salt, true), Err(AuthError::Conflict));
    assert_eq!(check_token("pw2", &t.digest, &t.salt, true), Err(AuthError::Forbidden));
}
