//! SHA-256 digests and hexadecimal text.
use sha2::Digest;
use vstd::prelude::*;
use vstd::string::*;
use vstd::utf8::encode_utf8;

verus! {

/// The SHA-256 digest of a sequence of bytes.
pub uninterp spec fn sha256_of(bytes: Seq<u8>) -> Seq<u8>;

/// `sha2::Sha256::digest`: a function of the bytes alone, named `sha256_of`, of 32 bytes.
#[verifier::external_body]
pub(crate) fn sha256(bytes: &[u8]) -> (r: Vec<u8>)
    ensures
        r@ == sha256_of(bytes@),
        r@.len() == 32,
{
    sha2::Sha256::digest(bytes).to_vec()
}

/// The hexadecimal digit of a number from 0 to 15, in lower case.
pub open spec fn hex_digit(n: int) -> char {
    if n < 10 {
        (48 + n) as char
    } else {
        (87 + n) as char
    }
}

/// Two lower-case hexadecimal digits for each byte, the high half first.
pub open spec fn hex_text(bytes: Seq<u8>) -> Seq<char> {
    Seq::new(
        2 * bytes.len(),
        |i: int|
            if i % 2 == 0 {
                hex_digit(bytes[i / 2] as int / 16)
            } else {
                hex_digit(bytes[i / 2] as int % 16)
            },
    )
}

/// `hex::encode` writes each byte as two lower-case hexadecimal digits.
#[verifier::external_body]
pub(crate) fn hex_encode(bytes: &[u8]) -> (s: String)
    ensures
        s@ == hex_text(bytes@),
{
    hex::encode(bytes)
}

/// The hexadecimal SHA-256 digest of a sequence of bytes.
pub open spec fn hex_digest_of(bytes: Seq<u8>) -> Seq<char> {
    hex_text(sha256_of(bytes))
}

/// The hexadecimal SHA-256 digest of `value`.
pub fn hex_digest(value: &[u8]) -> (s: String)
    ensures
        s@ == hex_digest_of(value@),
        s@.len() == 64,
{
    let digest = sha256(value);
    hex_encode(digest.as_slice())
}

/// The hexadecimal SHA-256 digest of a text.
pub open spec fn text_digest(s: Seq<char>) -> Seq<char> {
    hex_digest_of(encode_utf8(s))
}

/// The hexadecimal SHA-256 digest of the text `s`.
pub fn digest_text(s: &str) -> (r: String)
    ensures
        r@ == text_digest(s@),
        r@.len() == 64,
{
    hex_digest(s.as_bytes())
}

} // verus!
