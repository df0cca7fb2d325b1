//! The commitment verifier: hashing of the preimage and the byte-for-byte
//! check against a stored commitment.

use vstd::prelude::*;
use sha2::Digest;
use crate::codec::build_preimage;
use crate::codec::bytes32_eq;
use crate::codec::lemma_preimage_injective;
use crate::codec::preimage_of;

verus! {

/// The SHA-256 digest of a byte string. The algorithm itself stays outside
/// the library; all that is relied on is that the digest is a function of the
/// input bytes alone and is 32 bytes wide.
pub uninterp spec fn sha256_of(data: Seq<u8>) -> Seq<u8>;

/// Relies on sha2::Sha256 through the one-shot `Digest` API: the digest is
/// 32 bytes and depends on the input bytes alone.
#[verifier::external_body]
fn sha256(data: &Vec<u8>) -> (r: [u8; 32])
    ensures
        r@ == sha256_of(data@),
{
    sha2::Sha256::digest(data.as_slice()).into()
}

/// The commitment an organizer publishes for `(secret, salt)`: the digest of
/// the 8-byte big-endian secret followed by the salt.
pub fn make_commitment(secret: u64, salt: &[u8; 32]) -> (r: [u8; 32])
    ensures
        r@ == sha256_of(preimage_of(secret, salt@)),
{
    let preimage = build_preimage(secret, salt);
    sha256(&preimage)
}

/// Recomputes the digest for `(secret, salt)` and compares it byte for byte
/// against the stored commitment.
pub fn verify_commitment(secret: u64, salt: &[u8; 32], commitment: &[u8; 32]) -> (r: bool)
    ensures
        r == (sha256_of(preimage_of(secret, salt@)) == commitment@),
{
    let recomputed = make_commitment(secret, salt);
    bytes32_eq(&recomputed, commitment)
}

/// Commitment binding. A reveal with the exact inputs fixed at commit time
/// always matches the commitment, because the digest is a function of the
/// preimage alone (the contracts of `make_commitment` and `verify_commitment`
/// speak of the same `sha256_of`). This lemma gives the converse: when the
/// digest recomputed from `(s2, t2)` matches a commitment made from
/// `(s1, t1)`, either the revealed inputs are exactly the committed ones, or
/// two distinct 40-byte preimages share a SHA-256 digest — a collision the
/// crypto interface is trusted not to make findable.
pub proof fn lemma_commitment_binding(s1: u64, t1: Seq<u8>, s2: u64, t2: Seq<u8>)
    requires
        t1.len() == 32,
        t2.len() == 32,
        sha256_of(preimage_of(s2, t2)) == sha256_of(preimage_of(s1, t1)),
    ensures
        (s1 == s2 && t1 == t2) || preimage_of(s1, t1) != preimage_of(s2, t2),
{
    if preimage_of(s1, t1) == preimage_of(s2, t2) {
        lemma_preimage_injective(s1, t1, s2, t2);
    }
}

} // verus!
