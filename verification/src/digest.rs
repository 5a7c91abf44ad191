//! Digests of bytes.
use crate::render::{hex, hex_of, is_lower_hex, lemma_hex_is_lower, lemma_hex_len};
use sha2::Digest;
use vstd::prelude::*;

verus! {

/// The SHA-256 digest of a run of bytes.
pub uninterp spec fn sha256(data: Seq<u8>) -> Seq<u8>;

/// Calls `sha2::Sha256::digest`: the digest depends on the bytes alone and is 32 bytes long.
#[verifier::external_body]
pub(crate) fn sha256_of(data: &[u8]) -> (r: Vec<u8>)
    ensures
        r@ == sha256(data@),
        r@.len() == 32,
{
    sha2::Sha256::digest(data).to_vec()
}

/// The digest in hexadecimal digits.
pub open spec fn sha256_text(data: Seq<u8>) -> Seq<char> {
    hex(sha256(data))
}

/// Computes [`sha256_text`].
pub fn sha256_text_of(data: &[u8]) -> (r: String)
    ensures
        r@ == sha256_text(data@),
        r@.len() == 64,
        forall|i: int| 0 <= i < 64 ==> is_lower_hex(#[trigger] r@[i]),
{
    let d = sha256_of(data);
    proof {
        lemma_hex_len(d@);
        lemma_hex_is_lower(d@);
    }
    hex_of(d.as_slice())
}

/// The offset basis of the 64-bit FNV-1a hash.
pub const FNV_BASIS: u64 = 0xcbf29ce484222325;

/// The prime of the 64-bit FNV-1a hash.
pub const FNV_PRIME: u64 = 0x100000001b3;

/// The 64-bit FNV-1a hash of a run of bytes.
pub open spec fn fnv(data: Seq<u8>) -> u64
    decreases data.len(),
{
    if data.len() == 0 {
        FNV_BASIS
    } else {
        (fnv(data.drop_last()) ^ (data.last() as u64)).wrapping_mul(FNV_PRIME)
    }
}

/// Computes [`fnv`].
pub fn fnv_of(data: &Vec<u8>) -> (r: u64)
    ensures
        r == fnv(data@),
{
    let mut h: u64 = FNV_BASIS;
    assert(data@.take(0) =~= Seq::<u8>::empty());
    for i in 0..data.len()
        invariant
            h == fnv(data@.take(i as int)),
    {
        let b: u64 = data[i] as u64;
        h = (h ^ b).wrapping_mul(FNV_PRIME);
        assert(data@.take(i + 1).drop_last() =~= data@.take(i as int));
    }
    assert(data@.take(data@.len() as int) =~= data@);
    h
}

} // verus!
