//! SHA-2 digests of text, as the sites use them to make GUIDs.

use sha2::Digest;
use vstd::prelude::*;

use crate::text::{lower_hex, lower_hex_of};

verus! {

/// The SHA-256 digest of the UTF-8 encoding of a text.
pub uninterp spec fn sha256_of_text(text: Seq<char>) -> Seq<u8>;

/// The SHA-384 digest of the UTF-8 encoding of a text.
pub uninterp spec fn sha384_of_text(text: Seq<char>) -> Seq<u8>;

/// `sha2::Sha256::digest` over the UTF-8 bytes of `text`. The contract names
/// the digest and states its length (the hash's output size, 32 bytes); it
/// says nothing of the bytes themselves.
#[verifier::external_body]
fn sha256(text: &str) -> (d: Vec<u8>)
    ensures
        d@ == sha256_of_text(text@),
        d@.len() == 32,
{
    sha2::Sha256::digest(text.as_bytes()).to_vec()
}

/// `sha2::Sha384::digest` over the UTF-8 bytes of `text` (the same bytes as
/// feeding them to `update` and calling `finalize`). The contract names the
/// digest and states its length (the hash's output size, 48 bytes).
#[verifier::external_body]
fn sha384(text: &str) -> (d: Vec<u8>)
    ensures
        d@ == sha384_of_text(text@),
        d@.len() == 48,
{
    sha2::Sha384::digest(text.as_bytes()).to_vec()
}

/// The SHA-256 digest of a text in lower-case hexadecimal: 64 characters.
pub fn sha256_hex(text: &str) -> (h: String)
    ensures
        h@ == lower_hex(sha256_of_text(text@)),
        h@.len() == 64,
{
    lower_hex_of(&sha256(text))
}

/// The SHA-384 digest of a text in lower-case hexadecimal: 96 characters.
pub fn sha384_hex(text: &str) -> (h: String)
    ensures
        h@ == lower_hex(sha384_of_text(text@)),
        h@.len() == 96,
{
    lower_hex_of(&sha384(text))
}

} // verus!
