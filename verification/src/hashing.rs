//! SHA-256 digests and the hash primitives that the log is built from.
use sha2::{Digest, Sha256};
use vstd::prelude::*;

verus! {

/// A SHA-256 digest: 32 raw bytes. The all-zero digest is an ordinary value
/// and serves as the anchor of a fresh chain.
pub type Sha256Hash = [u8; 32];

/// The SHA-256 digest of `data`, as the 32 bytes that FIPS 180-4 defines.
pub uninterp spec fn sha256(data: Seq<u8>) -> Seq<u8>;

/// The input that `extend_and_hash` feeds to SHA-256: the previous digest,
/// then the tag byte, then the payload, with no framing in between.
pub open spec fn extended(prev: Seq<u8>, tag: u8, payload: Seq<u8>) -> Seq<u8> {
    prev + seq![tag] + payload
}

/// `sha256` applied `n` times in a row, starting from `start`.
pub open spec fn iterated_hash(start: Seq<u8>, n: nat) -> Seq<u8>
    decreases n,
{
    if n == 0 {
        start
    } else {
        sha256(iterated_hash(start, (n - 1) as nat))
    }
}

/// Returns the SHA-256 digest of `val`.
///
/// Trusted: calls `sha2::Sha256::digest` and copies the 32 output bytes into
/// an array. The contract claims that the bytes returned are the SHA-256
/// digest of exactly the bytes given, and so depend on nothing else.
#[verifier::external_body]
pub fn hash(val: &[u8]) -> (digest: Sha256Hash)
    ensures
        digest@ == sha256(val@),
{
    Sha256::digest(val).into()
}

/// Returns the digest of `end_hash` extended with the tag byte `ty` and the
/// bytes of `val`.
pub fn extend_and_hash(end_hash: &Sha256Hash, ty: u8, val: &[u8]) -> (digest: Sha256Hash)
    ensures
        digest@ == sha256(extended(end_hash@, ty, val@)),
{
    let mut hash_data: Vec<u8> = Vec::new();
    hash_data.extend_from_slice(end_hash);
    hash_data.push(ty);
    hash_data.extend_from_slice(val);
    assert(hash_data@ =~= extended(end_hash@, ty, val@));
    hash(hash_data.as_slice())
}

/// Whether two digests hold the same bytes.
pub fn same_hash(a: &Sha256Hash, b: &Sha256Hash) -> (same: bool)
    ensures
        same == (a@ == b@),
{
    let mut i: usize = 0;
    while i < 32
        invariant
            i <= 32,
            forall|j: int| 0 <= j < i ==> a@[j] == b@[j],
        decreases 32 - i,
    {
        if a[i] != b[i] {
            return false;
        }
        i += 1;
    }
    assert(a@ =~= b@);
    true
}

} // verus!
