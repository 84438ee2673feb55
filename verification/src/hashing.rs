//! The commitment verifier.
//!
//! A commitment is the SHA-256 digest of a secret. Binary commitments are the
//! 32 digest bytes; textual commitments are the digest in lower-case
//! hexadecimal. A secret opens a commitment when its digest equals the
//! commitment in full.

use vstd::prelude::*;
use vstd::string::*;
use sha2::Digest;
use crate::text::{bytes_equal, text_bytes};

verus! {

/// The SHA-256 digest of `data` as `sha2::Sha256` computes it.
pub uninterp spec fn sha256_digest(data: Seq<u8>) -> Seq<u8>;

/// Calls `sha2::Sha256::digest` on `data` and copies the digest out.
/// Trusted: the result is the digest named by [`sha256_digest`]; nothing else
/// is claimed about it.
#[verifier::external_body]
pub(crate) fn sha256(data: &[u8]) -> (digest: Vec<u8>)
    ensures
        digest@ == sha256_digest(data@),
{
    sha2::Sha256::digest(data).to_vec()
}

/// The lower-case hexadecimal digit of a value below 16.
pub open spec fn hex_digit(nibble: int) -> char {
    if nibble < 10 {
        ((48 + nibble) as u8) as char
    } else {
        ((87 + nibble) as u8) as char
    }
}

/// The lower-case hexadecimal text of `data`: two digits per byte, the high
/// half first.
pub open spec fn hex_text(data: Seq<u8>) -> Seq<char> {
    Seq::new(
        2 * data.len(),
        |i: int|
            if i % 2 == 0 {
                hex_digit(data[i / 2] as int / 16)
            } else {
                hex_digit(data[i / 2] as int % 16)
            },
    )
}

/// Calls `hex::encode` on `data`.
/// Trusted: the result has two lower-case hexadecimal digits for every byte,
/// in order, the high half of each byte first.
#[verifier::external_body]
pub(crate) fn hex_encode(data: &[u8]) -> (text: String)
    ensures
        text@ == hex_text(data@),
{
    hex::encode(data)
}

/// The textual commitment to a byte string.
pub open spec fn commitment_of_bytes(data: Seq<u8>) -> Seq<char> {
    hex_text(sha256_digest(data))
}

/// The textual commitment to a textual secret.
pub open spec fn commitment_of(secret: Seq<char>) -> Seq<char> {
    commitment_of_bytes(text_bytes(secret))
}

/// Computes the textual commitment to a byte string.
pub fn hash_bytes(data: &[u8]) -> (h: String)
    ensures
        h@ == commitment_of_bytes(data@),
{
    let digest = sha256(data);
    hex_encode(digest.as_slice())
}

/// Computes the textual commitment to a textual secret.
pub fn hash_secret(secret: &str) -> (h: String)
    ensures
        h@ == commitment_of(secret@),
{
    hash_bytes(secret.as_bytes())
}

/// Decides whether `secret` opens the textual commitment `hashlock`: the two
/// texts must be equal in full.
pub fn secret_matches(secret: &str, hashlock: &String) -> (ok: bool)
    ensures
        ok == (commitment_of(secret@) == hashlock@),
{
    let h = hash_secret(secret);
    h == *hashlock
}

/// Decides whether `preimage` opens the binary commitment `hashlock`: the
/// digest and the commitment must be equal byte for byte.
pub fn preimage_matches(preimage: &[u8], hashlock: &[u8]) -> (ok: bool)
    ensures
        ok == (sha256_digest(preimage@) == hashlock@),
{
    let digest = sha256(preimage);
    bytes_equal(digest.as_slice(), hashlock)
}

} // verus!
