//! The two hash functions of the chain: SHA3-256 for transactions, blocks and
//! Merkle roots, BLAKE3 for addresses.

use sha3::Digest;
use vstd::prelude::*;

verus! {

/// The SHA3-256 digest of a byte string.
pub uninterp spec fn sha3_256(data: Seq<u8>) -> Seq<u8>;

/// The BLAKE3 digest (32-byte default output) of a byte string.
pub uninterp spec fn blake3_hash(data: Seq<u8>) -> Seq<u8>;

/// SHA3-256 as computed by the sha3 crate's `Sha3_256::digest`; the
/// contract claims only that the result is the SHA3-256 digest of `data`.
#[verifier::external_body]
pub(crate) fn sha3_256_digest(data: &[u8]) -> (digest: [u8; 32])
    ensures
        digest@ == sha3_256(data@),
{
    sha3::Sha3_256::digest(data).into()
}

/// BLAKE3 as computed by the blake3 crate's `hash`; the contract claims
/// only that the result is the BLAKE3 digest of `data`.
#[verifier::external_body]
pub(crate) fn blake3_digest(data: &[u8]) -> (digest: [u8; 32])
    ensures
        digest@ == blake3_hash(data@),
{
    *blake3::hash(data).as_bytes()
}

} // verus!
