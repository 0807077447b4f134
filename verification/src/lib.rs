//! Quantar Network core: HYDRA-X dual post-quantum signatures, the chain's
//! transaction and block types with their canonical encodings and hashes,
//! the account state machine, genesis configuration and the
//! proof-of-authority consensus engine.

pub mod encoding;
pub mod digest;
pub mod crypto;
pub mod tx;
pub mod block;
pub mod state;
pub mod genesis;
pub mod consensus;
pub mod adapter;
pub mod storage;
