//! Checksums of file contents.

use sha2::Digest;
use vstd::prelude::*;

verus! {

/// The SHA-256 digest of `data`.
pub uninterp spec fn sha256(data: Seq<u8>) -> Seq<u8>;

/// Calls `sha2::Sha256::digest` and copies the digest out.
///
/// Trusted: the result is the name `sha256` of the input, and, as the
/// output type of `Sha256` fixes, it is 32 bytes long.
#[verifier::external_body]
fn sha256_digest(data: &[u8]) -> (r: Vec<u8>)
    ensures
        r@ == sha256(data@),
        r@.len() == 32,
{
    sha2::Sha256::digest(data).to_vec()
}

/// The checksum recorded for a file whose contents are `contents`.
pub fn hash_file(contents: &[u8]) -> (r: Vec<u8>)
    ensures
        r@ == sha256(contents@),
        r@.len() == 32,
{
    sha256_digest(contents)
}

} // verus!
