//! Keys under which the node's stores file blocks and state snapshots:
//! the height in 8 little-endian bytes.

use vstd::bytes::{spec_u64_from_le_bytes, spec_u64_to_le_bytes, u64_from_le_bytes, u64_to_le_bytes};
use vstd::prelude::*;

verus! {

/// The store key for `height`.
pub fn height_key(height: u64) -> (key: Vec<u8>)
    ensures
        key@ == spec_u64_to_le_bytes(height),
        key@.len() == 8,
{
    u64_to_le_bytes(height)
}

/// The height that an 8-byte store key stands for.
pub fn height_from_key(key: &[u8]) -> (height: u64)
    requires
        key@.len() == 8,
    ensures
        height == spec_u64_from_le_bytes(key@),
        spec_u64_to_le_bytes(height) == key@,
{
    proof {
        vstd::bytes::lemma_auto_spec_u64_to_from_le_bytes();
    }
    u64_from_le_bytes(key)
}

/// Reading back a written key gives the height it was written for.
pub proof fn lemma_height_key_roundtrip(height: u64)
    ensures
        spec_u64_from_le_bytes(spec_u64_to_le_bytes(height)) == height,
        spec_u64_to_le_bytes(height).len() == 8,
{
    vstd::bytes::lemma_auto_spec_u64_to_from_le_bytes();
}

} // verus!
