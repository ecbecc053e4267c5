//! Content addressing: the digest that names and verifies stored bytes.

use sha2::{Digest, Sha256};
use vstd::prelude::*;

verus! {

/// The SHA-256 digest of `data`, as the `sha2` crate computes it.
pub uninterp spec fn sha256(data: Seq<u8>) -> [u8; 32];

/// Digest of `data`.
///
/// Calls `sha2::Sha256::digest`. Trusted: the result is the SHA-256 digest of
/// the bytes given, a function of those bytes alone.
#[verifier::external_body]
pub fn calculate_checksum(data: &[u8]) -> (checksum: [u8; 32])
    ensures
        checksum == sha256(data@),
{
    let mut checksum = [0u8; 32];
    checksum.copy_from_slice(&Sha256::digest(data));
    checksum
}

/// Equal inputs have equal digests.
pub proof fn checksum_is_deterministic(first: Seq<u8>, second: Seq<u8>)
    requires
        first == second,
    ensures
        sha256(first) == sha256(second),
{
}

/// Compares two digests byte by byte.
pub fn same_hash(a: &[u8; 32], b: &[u8; 32]) -> (same: bool)
    ensures
        same == (*a == *b),
{
    let mut i: usize = 0;
    while i < 32
        invariant
            i <= 32,
            forall|j: int| 0 <= j < i ==> a[j] == b[j],
        decreases 32 - i,
    {
        if a[i] != b[i] {
            return false;
        }
        i += 1;
    }
    assert(*a =~= *b);
    true
}

} // verus!
