# qtrc — Quantar Network core, verified with Verus

The library (`src/`) holds the chain's logic with machine-checked contracts:

- `crypto` — HYDRA-X AND-composition of ML-DSA-87 and SLH-DSA signatures,
  addresses (BLAKE3 of both public keys) and their hex forms.
- `tx`, `block` — transactions and blocks, their canonical compact-JSON
  encodings, SHA3-256 hashes, Merkle root and verification.
- `state` — the account table and the transfer rules (nonces, balances,
  block application).
- `genesis` — the testnet configuration, initial state and genesis block.
- `consensus` — the round-robin proof-of-authority engine: proposer
  selection, mempool admission, block proposal, commit (two-thirds quorum;
  a refused block leaves the state unchanged) and the producer's slot step.
- `adapter`, `storage` — the mempool pipeline's raw layout and store keys.
- `encoding`, `digest` — decimal/hex/JSON fragments and the hash functions.

The signature schemes, hash functions and hex codec are called from their
crates through a small set of trusted wrappers whose contracts are stated in
the source.

`app/` is the node binary: CLI, JSON-RPC server (axum), block-producer loop
(tokio) that runs the library's slot step, sled stores and serde copies of
the chain types. `tests/` exercises the library.
