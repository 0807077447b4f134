//! Bridge between chain transactions and the mempool ingestion pipeline's
//! raw transaction layout.
//!
//! The pipeline signs `nonce || sender || recipient || value || fee_per_gas
//! || gas_limit || data_len || data`; a chain transaction maps onto it with
//! the fixed sentinels fee_per_gas = 0, gas_limit = 21_000 and empty data.

use vstd::prelude::*;

use crate::encoding::{push_all, push_le};
use crate::tx::{raw_signing_bytes, Transaction, TxHash, TRANSFER_GAS_LIMIT};

verus! {

/// A transaction in the ingestion pipeline's raw layout.
#[derive(Clone, Debug)]
pub struct RawTransaction {
    pub nonce: u64,
    pub sender: [u8; 32],
    pub sender_ml_dsa_pk: Vec<u8>,
    pub sender_slh_dsa_pk: Vec<u8>,
    pub recipient: [u8; 32],
    pub value: u128,
    pub fee_per_gas: u64,
    pub gas_limit: u64,
    pub data: Vec<u8>,
}

impl RawTransaction {
    /// The bytes the pipeline signs: nonce(8) || sender(32) || recipient(32)
    /// || value(16) || fee_per_gas(8) || gas_limit(8) || data_len(8) || data,
    /// integers little-endian.
    pub fn signing_bytes(&self) -> (bytes: Vec<u8>)
        requires
            self.data@.len() <= u64::MAX,
        ensures
            bytes@ == raw_signing_bytes(
                self.nonce,
                self.sender@,
                self.recipient@,
                self.value,
                self.fee_per_gas,
                self.gas_limit,
                self.data@,
            ),
    {
        let mut buf: Vec<u8> = Vec::new();
        push_le(&mut buf, self.nonce as u128, 8);
        push_all(&mut buf, &self.sender);
        push_all(&mut buf, &self.recipient);
        push_le(&mut buf, self.value, 16);
        push_le(&mut buf, self.fee_per_gas as u128, 8);
        push_le(&mut buf, self.gas_limit as u128, 8);
        push_le(&mut buf, self.data.len() as u128, 8);
        push_all(&mut buf, self.data.as_slice());
        assert(buf@ =~= raw_signing_bytes(
            self.nonce,
            self.sender@,
            self.recipient@,
            self.value,
            self.fee_per_gas,
            self.gas_limit,
            self.data@,
        ));
        buf
    }
}

/// The raw layout of a chain transaction: nonce, sender and recipient
/// addresses, the signer's two public keys and the amount carry over; fee
/// 0, gas limit 21 000 and no data.
pub fn to_raw_transaction(tx: &Transaction) -> (raw: RawTransaction)
    ensures
        raw.nonce == tx.nonce,
        raw.sender@ == tx.from.0@,
        raw.sender_ml_dsa_pk@ == tx.signature.verifying_key.ml_dsa_pk@,
        raw.sender_slh_dsa_pk@ == tx.signature.verifying_key.slh_dsa_pk@,
        raw.recipient@ == tx.to.0@,
        raw.value == tx.amount as u128,
        raw.fee_per_gas == 0,
        raw.gas_limit == TRANSFER_GAS_LIMIT,
        raw.data@.len() == 0,
        raw_signing_bytes(
            raw.nonce,
            raw.sender@,
            raw.recipient@,
            raw.value,
            raw.fee_per_gas,
            raw.gas_limit,
            raw.data@,
        ) == tx.payload(),
{
    let ml_pk = tx.signature.verifying_key.ml_dsa_pk.clone();
    let slh_pk = tx.signature.verifying_key.slh_dsa_pk.clone();
    assert(ml_pk@ =~= tx.signature.verifying_key.ml_dsa_pk@);
    assert(slh_pk@ =~= tx.signature.verifying_key.slh_dsa_pk@);
    let raw = RawTransaction {
        nonce: tx.nonce,
        sender: tx.from.0,
        sender_ml_dsa_pk: ml_pk,
        sender_slh_dsa_pk: slh_pk,
        recipient: tx.to.0,
        value: tx.amount as u128,
        fee_per_gas: 0,
        gas_limit: TRANSFER_GAS_LIMIT,
        data: Vec::new(),
    };
    assert(raw.data@ =~= Seq::<u8>::empty());
    raw
}

/// Convert a pipeline transaction hash (`[u8; 32]`) to a chain `TxHash`.
pub fn hx_hash_to_qtrc(hash: [u8; 32]) -> (h: TxHash)
    ensures
        h.0@ == hash@,
{
    TxHash(hash)
}

} // verus!
