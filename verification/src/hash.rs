//! Content hashes.

use vstd::prelude::*;

verus! {

/// The SHA-256 digest of some bytes, in lower-case hexadecimal.
pub uninterp spec fn sha256_hex(bytes: Seq<u8>) -> Seq<char>;

/// The hash of some bytes, by `sha2::Sha256::digest` and its `LowerHex` form.
/// The contract names the digest; it is a function of the bytes alone.
#[verifier::external_body]
pub(crate) fn digest_hex(bytes: &Vec<u8>) -> (out: String)
    ensures
        out@ == sha256_hex(bytes@),
{
    format!("{:x}", <sha2::Sha256 as sha2::Digest>::digest(bytes))
}

/// The hash that the state and the snapshots record for some content.
pub fn hash_bytes(bytes: &Vec<u8>) -> (out: String)
    ensures
        out@ == sha256_hex(bytes@),
{
    digest_hex(bytes)
}

} // verus!
