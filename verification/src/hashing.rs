//! The digest primitives behind content identifiers and randomness
//! derivation. The hash functions come from outside crates; each result
//! is named by an uninterpreted function of the input bytes, which is
//! all the contracts ever say of it.

use vstd::prelude::*;

use blake2::Digest;

verus! {

/// The 32-byte BLAKE2b digest of a byte string, as computed by the
/// `blake2` crate.
pub uninterp spec fn blake2b256_of(data: Seq<u8>) -> Seq<u8>;

/// The 32-byte SHA-256 digest of a byte string, as computed by the
/// `sha2` crate.
pub uninterp spec fn sha256_of(data: Seq<u8>) -> Seq<u8>;

/// Relies on `blake2::Blake2b` with a 32-byte output parameter: the
/// digest is a pure function of the input bytes, 32 bytes long.
#[verifier::external_body]
pub(crate) fn blake2b256(data: &Vec<u8>) -> (r: Vec<u8>)
    ensures
        r@ == blake2b256_of(data@),
        r@.len() == 32,
{
    let mut hasher: blake2::Blake2b<blake2::digest::consts::U32> = blake2::Blake2b::new();
    hasher.update(data.as_slice());
    hasher.finalize().to_vec()
}

/// Relies on `sha2::Sha256`: the digest is a pure function of the input
/// bytes, 32 bytes long.
#[verifier::external_body]
pub(crate) fn sha256(data: &Vec<u8>) -> (r: Vec<u8>)
    ensures
        r@ == sha256_of(data@),
        r@.len() == 32,
{
    let mut hasher = sha2::Sha256::new();
    hasher.update(data.as_slice());
    hasher.finalize().to_vec()
}

/// Hash function code for BLAKE2b with a 256-bit digest.
pub const HASH_BLAKE2B_256: u64 = 0xb220;

/// Hash function code for SHA-256.
pub const HASH_SHA2_256: u64 = 0x12;

/// True for the hash function / length pairs the kernel supports.
pub open spec fn multihash_supported(hash_code: u64, hash_len: u32) -> bool {
    (hash_code == HASH_BLAKE2B_256 || hash_code == HASH_SHA2_256) && hash_len == 32
}

/// The digest the supported hash function `hash_code` assigns to `data`.
pub open spec fn digest_of(hash_code: u64, data: Seq<u8>) -> Seq<u8> {
    if hash_code == HASH_BLAKE2B_256 {
        blake2b256_of(data)
    } else {
        sha256_of(data)
    }
}

/// Computes the digest of `data` under a supported hash function.
pub fn compute_digest(hash_code: u64, data: &Vec<u8>) -> (r: Vec<u8>)
    requires
        hash_code == HASH_BLAKE2B_256 || hash_code == HASH_SHA2_256,
    ensures
        r@ == digest_of(hash_code, data@),
        r@.len() == 32,
{
    if hash_code == HASH_BLAKE2B_256 {
        blake2b256(data)
    } else {
        sha256(data)
    }
}

} // verus!
