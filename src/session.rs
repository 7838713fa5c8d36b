//! The session cookies a client carries, and the admin check on privileged
//! operations.
use vstd::prelude::*;

use crate::error::AuthError;
use crate::model::AuthenticatedViewer;

verus! {

/// The `Set-Cookie` value that hands out `name=value`.
pub open spec fn set_cookie_text(name: Seq<char>, value: Seq<char>, domain: Seq<char>) -> Seq<char> {
    name + "="@ + value + "; HttpOnly; Secure; Path=/; Domain="@ + domain
        + "; SameSite=Lax; Max-Age=604800"@
}

/// The `Set-Cookie` value that clears the cookie `name`.
pub open spec fn cleared_cookie_text(name: Seq<char>, domain: Seq<char>) -> Seq<char> {
    name + "=; HttpOnly; Secure; Path=/; Domain="@ + domain + "; SameSite=Lax; Max-Age=0"@
}

/// The `Set-Cookie` value that hands a session credential to the client: kept
/// from scripts, sent over TLS only, for the whole site and one week
/// (604800 seconds).
pub fn session_cookie(name: &str, value: &str, domain: &str) -> (r: String)
    ensures
        r@ == set_cookie_text(name@, value@, domain@),
{
    let mut r = String::from_str(name);
    r.append("=");
    r.append(value);
    r.append("; HttpOnly; Secure; Path=/; Domain=");
    r.append(domain);
    r.append("; SameSite=Lax; Max-Age=604800");
    r
}

/// The `Set-Cookie` value that clears a session credential on logout: empty,
/// with the attributes it was set with and no lifetime left.
pub fn cleared_cookie(name: &str, domain: &str) -> (r: String)
    ensures
        r@ == cleared_cookie_text(name@, domain@),
{
    let mut r = String::from_str(name);
    r.append("=; HttpOnly; Secure; Path=/; Domain=");
    r.append(domain);
    r.append("; SameSite=Lax; Max-Age=0");
    r
}

/// Lets a privileged operation go ahead only for an admin.
pub fn require_admin(viewer: &AuthenticatedViewer) -> (r: Result<(), AuthError>)
    ensures
        r == if viewer.is_admin {
            Ok::<(), AuthError>(())
        } else {
            Err(AuthError::Forbidden)
        },
{
    if viewer.is_admin {
        Ok(())
    } else {
        Err(AuthError::Forbidden)
    }
}

/// Position of the first `;` in `s`, or its length when there is none.
pub open spec fn pair_end(s: Seq<char>) -> nat
    decreases s.len(),
{
    if s.len() == 0 {
        0
    } else if s[0] == ';' {
        0
    } else {
        1 + pair_end(s.drop_first())
    }
}

/// `s` without its leading spaces.
pub open spec fn skip_spaces(s: Seq<char>) -> Seq<char>
    decreases s.len(),
{
    if s.len() > 0 && s[0] == ' ' {
        skip_spaces(s.drop_first())
    } else {
        s
    }
}

/// The value of a `name=value` pair, if the pair has that name.
pub open spec fn pair_value(pair: Seq<char>, name: Seq<char>) -> Option<Seq<char>> {
    if pair.len() > name.len() && pair.subrange(0, name.len() as int) == name && pair[name.len() as int]
        == '=' {
        Some(pair.subrange(name.len() + 1int, pair.len() as int))
    } else {
        None
    }
}

/// The value of the first cookie called `name` in a `Cookie` request header:
/// pairs are separated by `;`, and spaces before a pair are skipped.
pub open spec fn cookie_value(h: Seq<char>, name: Seq<char>) -> Option<Seq<char>>
    decreases h.len(),
{
    let pe = pair_end(h);
    match pair_value(skip_spaces(h.subrange(0, pe as int)), name) {
        Some(v) => Some(v),
        None => if pe < h.len() {
            cookie_value(h.subrange(pe + 1int, h.len() as int), name)
        } else {
            None
        },
    }
}

/// The characters of an optional owned text.
pub open spec fn owned_text_of(o: Option<String>) -> Option<Seq<char>> {
    match o {
        Some(t) => Some(t@),
        None => None,
    }
}

proof fn lemma_pair_end(s: Seq<char>, j: int)
    requires
        0 <= j <= s.len(),
        forall|k: int| 0 <= k < j ==> s[k] != ';',
        j == s.len() || s[j] == ';',
    ensures
        pair_end(s) == j,
    decreases j,
{
    if j > 0 {
        lemma_pair_end(s.drop_first(), j - 1);
    }
}

proof fn lemma_skip_spaces(s: Seq<char>, k: int)
    requires
        0 <= k <= s.len(),
        forall|i: int| 0 <= i < k ==> s[i] == ' ',
        k == s.len() || s[k] != ' ',
    ensures
        skip_spaces(s) == s.subrange(k, s.len() as int),
    decreases k,
{
    if k > 0 {
        lemma_skip_spaces(s.drop_first(), k - 1);
        assert(s.drop_first().subrange(k - 1, s.len() - 1) =~= s.subrange(k, s.len() as int));
    } else {
        assert(s.subrange(0, s.len() as int) =~= s);
    }
}

/// Whether `name` stands in `h` at position `at`.
fn text_at(h: &str, at: usize, name: &str) -> (r: bool)
    requires
        at + name@.len() <= h@.len(),
        h@.len() <= usize::MAX,
    ensures
        r == (h@.subrange(at as int, at + name@.len()) == name@),
{
    let nl = name.unicode_len();
    let mut i: usize = 0;
    while i < nl
        invariant
            nl == name@.len(),
            at + nl <= h@.len(),
            h@.len() <= usize::MAX,
            0 <= i <= nl,
            forall|k: int| 0 <= k < i ==> h@[at + k] == name@[k],
        decreases nl - i,
    {
        if h.get_char(at + i) != name.get_char(i) {
            assert(h@.subrange(at as int, at + name@.len())[i as int] != name@[i as int]);
            return false;
        }
        i += 1;
    }
    assert(h@.subrange(at as int, at + name@.len()) =~= name@);
    true
}

/// The value of the first cookie called `name` in a `Cookie` request header.
pub fn find_cookie(header: &str, name: &str) -> (r: Option<String>)
    ensures
        owned_text_of(r) == cookie_value(header@, name@),
{
    let n = header.unicode_len();
    let nl = name.unicode_len();
    let mut start: usize = 0;
    assert(header@.subrange(0, n as int) =~= header@);
    loop
        invariant
            n == header@.len(),
            nl == name@.len(),
            start <= n,
            cookie_value(header@, name@) == cookie_value(header@.subrange(start as int, n as int), name@),
        decreases n - start,
    {
        let ghost rest = header@.subrange(start as int, n as int);
        let mut end = start;
        while end < n && header.get_char(end) != ';'
            invariant
                n == header@.len(),
                start <= end <= n,
                forall|k: int| start <= k < end ==> header@[k] != ';',
            decreases n - end,
        {
            end += 1;
        }
        proof {
            lemma_pair_end(rest, end - start);
        }
        let mut p = start;
        while p < end && header.get_char(p) == ' '
            invariant
                n == header@.len(),
                start <= p <= end <= n,
                forall|k: int| start <= k < p ==> header@[k] == ' ',
            decreases end - p,
        {
            p += 1;
        }
        proof {
            let pair = rest.subrange(0, end - start);
            lemma_skip_spaces(pair, p - start);
            assert(pair.subrange(p - start, pair.len() as int) =~= header@.subrange(p as int, end as int));
        }
        let ghost pair = header@.subrange(p as int, end as int);
        if end - p > nl && text_at(header, p, name) && header.get_char(p + nl) == '=' {
            let v = header.substring_char(p + nl + 1, end);
            proof {
                assert(pair.subrange(0, nl as int) =~= header@.subrange(p as int, p + nl));
                assert(pair.subrange(nl + 1, pair.len() as int) =~= v@);
            }
            return Some(String::from_str(v));
        }
        proof {
            if end - p > nl {
                assert(pair.subrange(0, nl as int) =~= header@.subrange(p as int, p + nl));
            }
        }
        if end >= n {
            return None;
        }
        proof {
            assert(rest.subrange(end - start + 1, rest.len() as int) =~= header@.subrange(end + 1, n as int));
        }
        start = end + 1;
    }
}

/// The two session values a request presents in its `Cookie` header.
pub struct PresentedCredentials {
    pub session_id: Option<String>,
    pub session_token: Option<String>,
}

/// Reads the `session_id` and `session_token` cookies from a `Cookie`
/// request header.
pub fn extract_credentials(cookie_header: &str) -> (r: PresentedCredentials)
    ensures
        owned_text_of(r.session_id) == cookie_value(cookie_header@, "session_id"@),
        owned_text_of(r.session_token) == cookie_value(cookie_header@, "session_token"@),
{
    PresentedCredentials {
        session_id: find_cookie(cookie_header, "session_id"),
        session_token: find_cookie(cookie_header, "session_token"),
    }
}

} // verus!
