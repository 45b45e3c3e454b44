//! The digest that signs sessions and stores passwords.

use vstd::prelude::*;
use vstd::utf8::encode_utf8;
use crate::text::{hex_bytes, hex_bytes_of};

verus! {

/// The SHA-256 digest of `data`.
pub uninterp spec fn sha256_of(data: Seq<u8>) -> Seq<u8>;

/// Calls `sha2::Sha256::digest`. Trusted: the result is the SHA-256 digest of
/// `data`, the same for the same bytes, and 32 bytes long.
#[verifier::external_body]
fn sha256(data: &[u8]) -> (r: Vec<u8>)
    ensures
        r@ == sha256_of(data@),
        r@.len() == 32,
{
    <sha2::Sha256 as sha2::Digest>::digest(data).to_vec()
}

/// The digest of a text's UTF-8 bytes, in lower-case hexadecimal digits.
pub open spec fn sha256_hex_of(text: Seq<char>) -> Seq<char> {
    hex_bytes_of(sha256_of(encode_utf8(text)))
}

/// The digest of a text's UTF-8 bytes, in lower-case hexadecimal digits.
pub fn sha256_hex(text: &str) -> (r: String)
    ensures
        r@ == sha256_hex_of(text@),
{
    let digest = sha256(text.as_bytes());
    hex_bytes(&digest)
}

} // verus!
