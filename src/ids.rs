//! Random identifiers and their textual form: 128-bit values written in the
//! hyphenated lowercase layout `8-4-4-4-12`.
use uuid::Uuid;
use vstd::arithmetic::power2::pow2;
use vstd::prelude::*;

use crate::digest::hex_of;

verus! {

/// The sixteen bytes of a 128-bit value, most significant first.
pub open spec fn be_bytes(v: u128) -> Seq<u8> {
    Seq::new(16, |i: int| ((v as int / pow2((8 * (15 - i)) as nat) as int) % 256) as u8)
}

/// The hyphenated lowercase text of a 128-bit identifier.
pub open spec fn uuid_text_of(v: u128) -> Seq<char> {
    let h = hex_of(be_bytes(v));
    h.subrange(0, 8) + seq!['-'] + h.subrange(8, 12) + seq!['-'] + h.subrange(12, 16) + seq!['-']
        + h.subrange(16, 20) + seq!['-'] + h.subrange(20, 32)
}

/// What `uuid::Uuid::parse_str` makes of a text: the identifier's 128-bit
/// value, or nothing when the text is not an identifier.
pub uninterp spec fn uuid_parse_of(s: Seq<char>) -> Option<u128>;

/// Relies on `uuid::Uuid::new_v4`: a random version-4 identifier. Nothing is
/// promised of its value.
#[verifier::external_body]
pub(crate) fn random_uuid() -> (r: u128) {
    Uuid::new_v4().as_u128()
}

/// Relies on the `Display` impl of `uuid::Uuid`: the hyphenated lowercase
/// form of the identifier's big-endian bytes.
#[verifier::external_body]
pub(crate) fn uuid_text(v: u128) -> (r: String)
    ensures
        r@ == uuid_text_of(v),
{
    Uuid::from_u128(v).to_string()
}

/// Relies on `uuid::Uuid::parse_str`: the parsed identifier, if the text is
/// one; the hyphenated form, which the crate itself writes, parses back to
/// the identifier it was written from.
#[verifier::external_body]
pub(crate) fn parse_uuid(s: &str) -> (r: Option<u128>)
    ensures
        r == uuid_parse_of(s@),
        forall|v: u128| s@ == #[trigger] uuid_text_of(v) ==> r == Some(v),
{
    match Uuid::parse_str(s) {
        Ok(u) => Some(u.as_u128()),
        Err(_) => None,
    }
}

/// A fresh random text of identifier shape, used for plaintext tokens and
/// salts.
pub(crate) fn random_text() -> (r: String)
    ensures
        r@.len() == 36,
{
    let v = random_uuid();
    let r = uuid_text(v);
    assert(hex_of(be_bytes(v)).len() == 32);
    r
}

} // verus!
