//! The hash functions of `sp_io::hashing`.
use vstd::prelude::*;

verus! {

/// The SHA2-256 digest of `data`, as `sp_io::hashing::sha2_256` computes it.
pub uninterp spec fn sha2_256_digest(data: Seq<u8>) -> Seq<u8>;

/// The Keccak-256 digest of `data`, as `sp_io::hashing::keccak_256` computes it.
pub uninterp spec fn keccak_256_digest(data: Seq<u8>) -> Seq<u8>;

/// `sp_io::hashing::sha2_256`: the digest depends on the bytes alone.
#[verifier::external_body]
pub(crate) fn sha2_256(data: &[u8]) -> (digest: [u8; 32])
    ensures
        digest@ == sha2_256_digest(data@),
{
    sp_io::hashing::sha2_256(data)
}

/// `sp_io::hashing::keccak_256`: the digest depends on the bytes alone.
#[verifier::external_body]
pub(crate) fn keccak_256(data: &[u8]) -> (digest: [u8; 32])
    ensures
        digest@ == keccak_256_digest(data@),
{
    sp_io::hashing::keccak_256(data)
}

} // verus!
