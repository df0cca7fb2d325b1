//! Byte-level encoding of the commitment preimage: the secret as 8 bytes
//! big-endian followed by the 32-byte salt, and comparison of 32-byte digests.

use vstd::prelude::*;

verus! {

/// The 8-byte big-endian encoding of a 64-bit value, most significant byte first.
pub open spec fn u64_be_bytes(x: u64) -> Seq<u8> {
    seq![
        ((x >> 56) & 0xff) as u8,
        ((x >> 48) & 0xff) as u8,
        ((x >> 40) & 0xff) as u8,
        ((x >> 32) & 0xff) as u8,
        ((x >> 24) & 0xff) as u8,
        ((x >> 16) & 0xff) as u8,
        ((x >> 8) & 0xff) as u8,
        (x & 0xff) as u8,
    ]
}

/// The commitment preimage: the secret's 8 big-endian bytes followed by the salt.
pub open spec fn preimage_of(secret: u64, salt: Seq<u8>) -> Seq<u8> {
    u64_be_bytes(secret) + salt
}

/// Big-endian encoding loses nothing: equal encodings come from equal values.
pub proof fn lemma_u64_be_bytes_injective(x: u64, y: u64)
    requires
        u64_be_bytes(x) == u64_be_bytes(y),
    ensures
        x == y,
{
    assert(u64_be_bytes(x)[0] == u64_be_bytes(y)[0]);
    assert(u64_be_bytes(x)[1] == u64_be_bytes(y)[1]);
    assert(u64_be_bytes(x)[2] == u64_be_bytes(y)[2]);
    assert(u64_be_bytes(x)[3] == u64_be_bytes(y)[3]);
    assert(u64_be_bytes(x)[4] == u64_be_bytes(y)[4]);
    assert(u64_be_bytes(x)[5] == u64_be_bytes(y)[5]);
    assert(u64_be_bytes(x)[6] == u64_be_bytes(y)[6]);
    assert(u64_be_bytes(x)[7] == u64_be_bytes(y)[7]);
    assert((((x >> 56) & 0xff) as u8 == ((y >> 56) & 0xff) as u8
        && ((x >> 48) & 0xff) as u8 == ((y >> 48) & 0xff) as u8
        && ((x >> 40) & 0xff) as u8 == ((y >> 40) & 0xff) as u8
        && ((x >> 32) & 0xff) as u8 == ((y >> 32) & 0xff) as u8
        && ((x >> 24) & 0xff) as u8 == ((y >> 24) & 0xff) as u8
        && ((x >> 16) & 0xff) as u8 == ((y >> 16) & 0xff) as u8
        && ((x >> 8) & 0xff) as u8 == ((y >> 8) & 0xff) as u8
        && (x & 0xff) as u8 == (y & 0xff) as u8) ==> x == y) by (bit_vector);
}

/// Distinct `(secret, salt)` pairs build distinct preimages, so a false
/// positive at reveal time would exhibit a collision of the hash itself.
pub proof fn lemma_preimage_injective(s1: u64, t1: Seq<u8>, s2: u64, t2: Seq<u8>)
    requires
        t1.len() == 32,
        t2.len() == 32,
        preimage_of(s1, t1) == preimage_of(s2, t2),
    ensures
        s1 == s2,
        t1 == t2,
{
    let p1 = preimage_of(s1, t1);
    let p2 = preimage_of(s2, t2);
    assert(p1.subrange(0, 8) =~= u64_be_bytes(s1));
    assert(p2.subrange(0, 8) =~= u64_be_bytes(s2));
    lemma_u64_be_bytes_injective(s1, s2);
    assert(p1.subrange(8, 40) =~= t1);
    assert(p2.subrange(8, 40) =~= t2);
}

/// The secret's 8 big-endian bytes, most significant first.
pub fn u64_to_be_bytes(x: u64) -> (r: Vec<u8>)
    ensures
        r@ == u64_be_bytes(x),
{
    proof {
        assert((x >> 56) & 0xff < 256 && (x >> 48) & 0xff < 256 && (x >> 40) & 0xff < 256
            && (x >> 32) & 0xff < 256 && (x >> 24) & 0xff < 256 && (x >> 16) & 0xff < 256
            && (x >> 8) & 0xff < 256 && x & 0xff < 256) by (bit_vector);
    }
    let mut r: Vec<u8> = Vec::new();
    r.push(((x >> 56) & 0xff) as u8);
    r.push(((x >> 48) & 0xff) as u8);
    r.push(((x >> 40) & 0xff) as u8);
    r.push(((x >> 32) & 0xff) as u8);
    r.push(((x >> 24) & 0xff) as u8);
    r.push(((x >> 16) & 0xff) as u8);
    r.push(((x >> 8) & 0xff) as u8);
    r.push((x & 0xff) as u8);
    proof {
        assert(r@ =~= u64_be_bytes(x));
    }
    r
}

/// Builds the 40-byte commitment preimage from the secret and the salt.
pub fn build_preimage(secret: u64, salt: &[u8; 32]) -> (r: Vec<u8>)
    ensures
        r@ == preimage_of(secret, salt@),
{
    let mut r = u64_to_be_bytes(secret);
    let mut i: usize = 0;
    while i < 32
        invariant
            i <= 32,
            r@ == u64_be_bytes(secret) + salt@.take(i as int),
        decreases 32 - i,
    {
        r.push(salt[i]);
        proof {
            assert(u64_be_bytes(secret) + salt@.take(i + 1) =~= (u64_be_bytes(secret)
                + salt@.take(i as int)).push(salt@[i as int]));
        }
        i = i + 1;
    }
    proof {
        assert(salt@.take(32) =~= salt@);
    }
    r
}

/// Byte-for-byte comparison of two 32-byte digests.
pub fn bytes32_eq(a: &[u8; 32], b: &[u8; 32]) -> (r: bool)
    ensures
        r == (a@ == b@),
{
    let mut i: usize = 0;
    while i < 32
        invariant
            i <= 32,
            forall|k: int| 0 <= k < i ==> a@[k] == b@[k],
        decreases 32 - i,
    {
        if a[i] != b[i] {
            return false;
        }
        i = i + 1;
    }
    proof {
        assert(a@ =~= b@);
    }
    true
}

} // verus!
