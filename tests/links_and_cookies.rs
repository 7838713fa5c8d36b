use viewer_auth::notify::{reset_link, verification_link};
use viewer_auth::session::{extract_credentials, find_cookie};

#[test]
fn verification_link_encodes_values() {
    assert_eq!(
        verification_link("https://x.de/verify", "a b", "a@b.com"),
        "https://x.de/verify?vc=a%20b&e=a%40b.com"
    );
    assert_eq!(verification_link("u", "Az09-_.~", "e"), "u?vc=Az09-_.~&e=e");
}

#[test]
fn reset_link_encodes_values() {
    assert_eq!(
        reset_link("https://x.de", "t/1+", "ä@b.com"),
        "https://x.de/reset-password?c=t%2F1%2B&e=%C3%A4%40b.com"
    );
}

#[test]
fn credentials_from_cookie_header() {
    let c = extract_credentials("session_id=abc; session_token=def");
    assert_eq!(c.session_id.as_deref(), Some("abc"));
    assert_eq!(c.session_token.as_deref(), Some("def"));
    let c = extract_credentials("theme=dark;session_token=t=1;  session_id=x");
    assert_eq!(c.session_id.as_deref(), Some("x"));
    assert_eq!(c.session_token.as_deref(), Some("t=1"));
}

#[test]
fn credentials_missing_from_cookie_header() {
    let c = extract_credentials("foo=bar; session=1");
    assert_eq!(c.session_id, None);
    assert_eq!(c.session_token, None);
    let c = extract_credentials("");
    assert_eq!(c.session_id, None);
    assert_eq!(c.session_token, None);
}

#[test]
fn first_cookie_of_a_name_wins() {
    assert_eq!(find_cookie("a=1; a=2", "a").as_deref(), Some("1"));
    assert_eq!(find_cookie("ab=1; a=2", "a").as_deref(), Some("2"));
    assert_eq!(find_cookie("a=", "a").as_deref(), Some(""));
    assert_eq!(find_cookie("a", "a"), None);
}
