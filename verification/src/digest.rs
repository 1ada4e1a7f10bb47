//! Digests of bytes.

use vstd::prelude::*;

verus! {

/// The SHA-256 digest of bytes, in lower-case hexadecimal digits.
pub uninterp spec fn sha256_hex(bytes: Seq<u8>) -> Seq<char>;

/// Digests bytes with `sha2::Sha256::digest`, and writes the 32 bytes of the digest as 64
/// hexadecimal digits. What comes back depends on the bytes alone.
#[verifier::external_body]
pub(crate) fn hash_bytes(bytes: &[u8]) -> (r: String)
    ensures
        r@ == sha256_hex(bytes@),
        r@.len() == 64,
{
    format!("{:x}", <sha2::Sha256 as sha2::Digest>::digest(bytes))
}

/// The SHA-256 digest of what a file holds.
pub fn hash_contents(bytes: &[u8]) -> (r: String)
    ensures
        r@ == sha256_hex(bytes@),
{
    hash_bytes(bytes)
}

} // verus!
