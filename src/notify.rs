//! The links that the verification and reset emails carry.
use vstd::prelude::*;
use vstd::utf8::encode_utf8;

verus! {

/// Bytes that percent-encoding leaves as they are: ASCII letters, digits and
/// `-`, `_`, `.`, `~`.
pub open spec fn is_unreserved(b: u8) -> bool {
    (48 <= b <= 57) || (65 <= b <= 90) || (97 <= b <= 122) || b == 45 || b == 95 || b == 46 || b
        == 126
}

/// The uppercase hexadecimal digit for a value below sixteen.
pub open spec fn upper_hex_digit(n: int) -> char {
    seq!['0', '1', '2', '3', '4', '5', '6', '7', '8', '9', 'A', 'B', 'C', 'D', 'E', 'F'][n]
}

/// A byte as it stands in a percent-encoded text.
pub open spec fn percent_byte(b: u8) -> Seq<char> {
    if is_unreserved(b) {
        seq![b as char]
    } else {
        seq!['%', upper_hex_digit(b as int / 16), upper_hex_digit(b as int % 16)]
    }
}

/// Percent-encoding of a byte sequence, byte by byte.
pub open spec fn percent_encoded(b: Seq<u8>) -> Seq<char>
    decreases b.len(),
{
    if b.len() == 0 {
        Seq::empty()
    } else {
        percent_encoded(b.drop_last()) + percent_byte(b.last())
    }
}

/// Relies on `urlencoding::encode`: every byte of the UTF-8 text is kept if
/// it is an ASCII letter or digit or one of `-`, `_`, `.`, `~`, and is
/// written `%XY` with uppercase hexadecimal digits otherwise.
#[verifier::external_body]
fn url_encode(s: &str) -> (r: String)
    ensures
        r@ == percent_encoded(encode_utf8(s@)),
{
    urlencoding::encode(s).into_owned()
}

/// The link of the verification email: `{url}?vc={code}&e={email}`, both
/// values percent-encoded.
pub fn verification_link(url: &str, code: &str, email: &str) -> (r: String)
    ensures
        r@ == url@ + "?vc="@ + percent_encoded(encode_utf8(code@)) + "&e="@ + percent_encoded(
            encode_utf8(email@),
        ),
{
    let mut r = String::from_str(url);
    r.append("?vc=");
    let c = url_encode(code);
    r.append(c.as_str());
    r.append("&e=");
    let e = url_encode(email);
    r.append(e.as_str());
    r
}

/// The link of the password-reset email:
/// `{url}/reset-password?c={token}&e={email}`, both values percent-encoded.
pub fn reset_link(url: &str, token: &str, email: &str) -> (r: String)
    ensures
        r@ == url@ + "/reset-password?c="@ + percent_encoded(encode_utf8(token@)) + "&e="@
            + percent_encoded(encode_utf8(email@)),
{
    let mut r = String::from_str(url);
    r.append("/reset-password?c=");
    let t = url_encode(token);
    r.append(t.as_str());
    r.append("&e=");
    let e = url_encode(email);
    r.append(e.as_str());
    r
}

} // verus!
