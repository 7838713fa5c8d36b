//! Salted one-way digests of secrets: SHA-256 over `secret ++ salt`, written
//! as lowercase hexadecimal.
use sha2::{Digest, Sha256};
use vstd::prelude::*;
use vstd::utf8::encode_utf8;

verus! {

/// What SHA-256 yields on a byte sequence.
pub uninterp spec fn sha256_of(data: Seq<u8>) -> Seq<u8>;

/// The lowercase hexadecimal digit for a value below sixteen.
pub open spec fn hex_digit(n: int) -> char {
    seq!['0', '1', '2', '3', '4', '5', '6', '7', '8', '9', 'a', 'b', 'c', 'd', 'e', 'f'][n]
}

/// Two lowercase hexadecimal digits per byte, high nibble first.
pub open spec fn hex_of(b: Seq<u8>) -> Seq<char> {
    Seq::new(
        2 * b.len(),
        |i: int|
            if i % 2 == 0 {
                hex_digit(b[i / 2] as int / 16)
            } else {
                hex_digit(b[i / 2] as int % 16)
            },
    )
}

/// The digest stored for a secret under a salt: SHA-256 of the UTF-8 bytes of
/// the secret followed by the salt, in lowercase hexadecimal.
pub open spec fn digest_of(secret: Seq<char>, salt: Seq<char>) -> Seq<char> {
    hex_of(sha256_of(encode_utf8(secret + salt)))
}

/// Relies on `sha2::Sha256::digest`: the 32-byte SHA-256 of the input, which
/// depends on the input alone.
#[verifier::external_body]
fn sha256(data: &[u8]) -> (r: Vec<u8>)
    ensures
        r@ == sha256_of(data@),
        r@.len() == 32,
{
    Sha256::digest(data).to_vec()
}

/// Relies on `hex::encode`: two lowercase hexadecimal digits per byte, high
/// nibble first.
#[verifier::external_body]
fn hex_encode(data: &Vec<u8>) -> (r: String)
    ensures
        r@ == hex_of(data@),
{
    hex::encode(data)
}

/// Digest of `secret` salted with `salt`.
pub fn hash_secret(secret: &str, salt: &str) -> (r: String)
    ensures
        r@ == digest_of(secret@, salt@),
        r@.len() == 64,
{
    let mut salted = String::from_str(secret);
    salted.append(salt);
    let bytes = salted.as_str().as_bytes();
    let d = sha256(bytes);
    hex_encode(&d)
}

/// Recomputes the digest of `secret` under `salt` and compares it with
/// `expected`.
pub fn verify_secret(secret: &str, salt: &str, expected: &str) -> (r: bool)
    ensures
        r == (digest_of(secret@, salt@) == expected@),
{
    let d = hash_secret(secret, salt);
    let e = String::from_str(expected);
    d == e
}

/// Hashing is a function of the secret and the salt: equal inputs give equal
/// digests.
pub proof fn lemma_hash_deterministic(
    secret1: Seq<char>,
    salt1: Seq<char>,
    secret2: Seq<char>,
    salt2: Seq<char>,
)
    requires
        secret1 == secret2,
        salt1 == salt2,
    ensures
        digest_of(secret1, salt1) == digest_of(secret2, salt2),
{
}

} // verus!
