//! The content digest: SHA-256, supplied by the `crypto_hash` crate.

use vstd::prelude::*;
use crate::BlockHash;

verus! {

/// The SHA-256 digest of a byte sequence.
pub uninterp spec fn sha256_digest(data: Seq<u8>) -> [u8; 32];

/// Calls `crypto_hash::digest` with `Algorithm::SHA256` and moves the
/// digest, which that crate documents as 256 bits long, into an array.
/// Trusted, not proved: the result is the SHA-256 digest of `data` and
/// depends on nothing else. The call panics only where the system's hash
/// library reports a failure of its own, whatever the message.
#[verifier::external_body]
pub(crate) fn sha256(data: &[u8]) -> (out: BlockHash)
    ensures
        out == sha256_digest(data@),
{
    let digest = crypto_hash::digest(crypto_hash::Algorithm::SHA256, data);
    let mut out: BlockHash = [0; 32];
    out.copy_from_slice(&digest);
    out
}

/// No collision between `a` and `b`: they are equal, or their digests differ.
pub open spec fn no_collision(a: Seq<u8>, b: Seq<u8>) -> bool {
    sha256_digest(a) == sha256_digest(b) ==> a == b
}

/// Hashes a message.
pub fn hash_bytes(data: &Vec<u8>) -> (out: BlockHash)
    ensures
        out == sha256_digest(data@),
{
    sha256(data.as_slice())
}

/// Whether two hashes are the same, byte for byte.
pub fn same_hash(a: &BlockHash, b: &BlockHash) -> (same: bool)
    ensures
        same == (*a == *b),
{
    let mut i: usize = 0;
    while i < 32
        invariant
            i <= 32,
            forall|j: int| 0 <= j < i ==> a[j] == b[j],
        decreases 32 - i,
    {
        if a[i] != b[i] {
            return false;
        }
        i += 1;
    }
    assert(*a =~= *b);
    true
}

} // verus!
