//! The content hasher: SHA-256, computed by the `sha2` crate.
use sha2::{Digest, Sha256};
use vstd::prelude::*;

verus! {

/// The SHA-256 digest of `bytes`, as `sha2` computes it: 32 bytes that
/// depend on `bytes` alone.
pub uninterp spec fn sha256_digest(bytes: Seq<u8>) -> Seq<u8>;

/// Calls `sha2::Sha256::digest` and copies the digest into an array. The
/// result is the digest of `bytes`; the algorithm itself is taken on trust.
#[verifier::external_body]
fn sha256(bytes: &[u8]) -> (digest: [u8; 32])
    ensures
        digest@ == sha256_digest(bytes@),
{
    Sha256::digest(bytes).into()
}

/// Maps `bytes` to their 32-byte digest.
pub fn hash(bytes: &[u8]) -> (digest: [u8; 32])
    ensures
        digest@ == sha256_digest(bytes@),
{
    sha256(bytes)
}

/// Whether two digests are the same bytes.
pub fn same_digest(a: &[u8; 32], b: &[u8; 32]) -> (same: bool)
    ensures
        same == (a@ == b@),
{
    let mut i: usize = 0;
    while i < 32
        invariant
            i <= 32,
            a@.take(i as int) == b@.take(i as int),
        decreases 32 - i,
    {
        if a[i] != b[i] {
            return false;
        }
        assert(a@.take(i + 1) =~= a@.take(i as int).push(a@[i as int]));
        assert(b@.take(i + 1) =~= b@.take(i as int).push(b@[i as int]));
        i += 1;
    }
    assert(a@.take(32) =~= a@ && b@.take(32) =~= b@);
    true
}

} // verus!
