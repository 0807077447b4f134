//! Transaction types, their canonical encoding, hashing and verification.

use vstd::prelude::*;
use vstd::string::StringSliceAdditionalSpecFns;

use crate::crypto::{decimal_chars, Address, HydraXSignature, HydraXVerifyingKey};
use crate::digest::{sha3_256, sha3_256_digest};
use crate::encoding::{
    decimal_ascii, decimal_string, le_bytes, lemma_le_bytes_len, push_le, hex_encode, hex_lower_chars, json_byte_array, json_hex_string,
    json_key, push_all, push_decimal, push_json_byte_array, push_json_hex_string, push_json_key,
    push_signed_decimal, signed_decimal_ascii,
};

verus! {

/// 32-byte SHA3-256 hash of a serialized transaction.
#[derive(Clone, Copy, Debug, Eq, Hash)]
pub struct TxHash(pub [u8; 32]);

impl PartialEq for TxHash {
    fn eq(&self, other: &Self) -> (equal: bool) {
        let mut i: usize = 0;
        while i < 32
            invariant
                i <= 32,
                forall|j: int| 0 <= j < i ==> self.0@[j] == other.0@[j],
            decreases 32 - i,
        {
            if self.0[i] != other.0[i] {
                return false;
            }
            i = i + 1;
        }
        assert(self.0@ =~= other.0@);
        true
    }
}

impl vstd::std_specs::cmp::PartialEqSpecImpl for TxHash {
    open spec fn obeys_eq_spec() -> bool {
        true
    }

    open spec fn eq_spec(&self, other: &Self) -> bool {
        self.0@ == other.0@
    }
}

impl TxHash {
    /// Lowercase hex of the 32 bytes.
    pub fn to_string(&self) -> (text: String)
        ensures
            text@ == hex_lower_chars(self.0@),
    {
        hex_encode(&self.0)
    }
}

#[derive(Debug)]
pub enum TxError {
    SignatureInvalid(String),
    SignerMismatch,
    Serialization(String),
    InsufficientBalance { need: u64, have: u64 },
    InvalidNonce { expected: u64, got: u64 },
}

impl TxError {
    /// The text that describes the error.
    pub open spec fn message(&self) -> Seq<char> {
        match self {
            TxError::SignatureInvalid(detail) => "Signature verification failed: "@ + detail@,
            TxError::SignerMismatch => "Signer address does not match `from` field"@,
            TxError::Serialization(detail) => "Serialization error: "@ + detail@,
            TxError::InsufficientBalance { need, have } => "Insufficient balance: need "@
                + decimal_chars(*need as nat) + ", have "@ + decimal_chars(*have as nat),
            TxError::InvalidNonce { expected, got } => "Invalid nonce: expected "@ + decimal_chars(*expected as nat) + ", got "@ + decimal_chars(*got as nat),
        }
    }

    /// The text that describes the error.
    pub fn to_string(&self) -> (text: String)
        ensures
            text@ == self.message(),
    {
        match self {
            TxError::SignatureInvalid(detail) => String::from_str(
                "Signature verification failed: ",
            ).concat(detail.as_str()),
            TxError::SignerMismatch => String::from_str(
                "Signer address does not match `from` field",
            ),
            TxError::Serialization(detail) => String::from_str("Serialization error: ").concat(
                detail.as_str(),
            ),
            TxError::InsufficientBalance { need, have } => {
                let n = decimal_string(*need);
                let h = decimal_string(*have);
                String::from_str("Insufficient balance: need ").concat(n.as_str()).concat(
                    ", have ",
                ).concat(h.as_str())
            },
            TxError::InvalidNonce { expected, got } => {
                let e = decimal_string(*expected);
                let g = decimal_string(*got);
                String::from_str("Invalid nonce: expected ").concat(e.as_str()).concat(
                    ", got ",
                ).concat(g.as_str())
            },
        }
    }
}

/// A Quantar Network transfer transaction.
///
/// Every transaction carries a HYDRA-X AND-composed signature; there is no
/// transaction that is accepted without both component signatures.
#[derive(Debug)]
pub struct Transaction {
    /// Sender address (must match signature's verifying key)
    pub from: Address,
    /// Recipient address
    pub to: Address,
    /// Amount in micro-QTR (1 QTR = 1_000_000 µQTR)
    pub amount: u64,
    /// Sender nonce — prevents replay attacks
    pub nonce: u64,
    /// Unix timestamp (seconds)
    pub timestamp: i64,
    /// HYDRA-X AND-composed signature over the canonical payload
    pub signature: HydraXSignature,
}

impl View for Transaction {
    type V = (Address, Address, u64, u64, i64, (Seq<u8>, Seq<u8>, (Seq<u8>, Seq<u8>)));

    open spec fn view(&self) -> Self::V {
        (self.from, self.to, self.amount, self.nonce, self.timestamp, self.signature@)
    }
}

impl Clone for Transaction {
    fn clone(&self) -> (copy: Self)
        ensures
            copy@ == self@,
    {
        Transaction {
            from: self.from,
            to: self.to,
            amount: self.amount,
            nonce: self.nonce,
            timestamp: self.timestamp,
            signature: self.signature.clone(),
        }
    }
}

/// Gas limit that every transfer carries in the signed layout.
pub const TRANSFER_GAS_LIMIT: u64 = 21_000;

/// The signed layout of a transaction in the mempool pipeline (integers
/// little-endian): nonce (8) || sender (32) || recipient (32) || value (16)
/// || fee_per_gas (8) || gas_limit (8) || data_len (8) || data.
pub open spec fn raw_signing_bytes(
    nonce: u64,
    sender: Seq<u8>,
    recipient: Seq<u8>,
    value: u128,
    fee_per_gas: u64,
    gas_limit: u64,
    data: Seq<u8>,
) -> Seq<u8> {
    le_bytes(nonce as nat, 8) + sender + recipient + le_bytes(value as nat, 16) + le_bytes(
        fee_per_gas as nat,
        8,
    ) + le_bytes(gas_limit as nat, 8) + le_bytes(data.len(), 8) + data
}

/// The canonical payload signed by the sender: the pipeline layout with
/// the amount as value, fee_per_gas 0, gas_limit 21 000 and no data (112
/// bytes). The timestamp and the signature are not part of it.
pub open spec fn signing_payload_bytes(from: Address, to: Address, amount: u64, nonce: u64) -> Seq<
    u8,
> {
    raw_signing_bytes(nonce, from.0@, to.0@, amount as u128, 0, TRANSFER_GAS_LIMIT, seq![])
}

/// The compact JSON encoding of a verifying key; the key bytes are arrays
/// of numbers.
pub open spec fn verifying_key_json(vk: HydraXVerifyingKey) -> Seq<u8> {
    seq![123u8] + json_key("ml_dsa_pk".spec_bytes()) + json_byte_array(vk.ml_dsa_pk@) + seq![44u8]
        + json_key("slh_dsa_pk".spec_bytes()) + json_byte_array(vk.slh_dsa_pk@) + seq![125u8]
}

/// The compact JSON encoding of a HYDRA-X signature.
pub open spec fn signature_json(sig: HydraXSignature) -> Seq<u8> {
    seq![123u8] + json_key("ml_dsa_sig".spec_bytes()) + json_byte_array(sig.ml_dsa_sig@) + seq![
        44u8,
    ] + json_key("slh_dsa_sig".spec_bytes()) + json_byte_array(sig.slh_dsa_sig@) + seq![44u8]
        + json_key("verifying_key".spec_bytes()) + verifying_key_json(sig.verifying_key) + seq![
        125u8,
    ]
}

/// The fields of a transaction before its signature, as compact JSON
/// (without the opening brace).
pub open spec fn transaction_fields_json(tx: Transaction) -> Seq<u8> {
    json_key("from".spec_bytes()) + json_hex_string(tx.from.0@) + seq![44u8] + json_key(
        "to".spec_bytes(),
    ) + json_hex_string(tx.to.0@) + seq![44u8] + json_key("amount".spec_bytes())
        + decimal_ascii(tx.amount as nat) + seq![44u8] + json_key("nonce".spec_bytes())
        + decimal_ascii(tx.nonce as nat) + seq![44u8] + json_key("timestamp".spec_bytes())
        + signed_decimal_ascii(tx.timestamp as int) + seq![44u8]
}

/// The canonical (compact JSON) encoding of a transaction whose SHA3-256
/// digest is its hash; addresses are hex strings, byte strings are arrays
/// of numbers, and fields appear in declaration order.
pub open spec fn transaction_json(tx: Transaction) -> Seq<u8> {
    seq![123u8] + transaction_fields_json(tx) + json_key("signature".spec_bytes()) + signature_json(
        tx.signature,
    ) + seq![125u8]
}

/// The hash of a transaction.
pub open spec fn transaction_hash(tx: Transaction) -> Seq<u8> {
    sha3_256(transaction_json(tx))
}

/// Appends the JSON encoding of a verifying key.
fn push_verifying_key_json(out: &mut Vec<u8>, vk: &HydraXVerifyingKey)
    ensures
        final(out)@ == old(out)@ + verifying_key_json(*vk),
{
    let ghost before = out@;
    out.push(123u8);
    push_json_key(out, "ml_dsa_pk");
    push_json_byte_array(out, vk.ml_dsa_pk.as_slice());
    out.push(44u8);
    push_json_key(out, "slh_dsa_pk");
    push_json_byte_array(out, vk.slh_dsa_pk.as_slice());
    out.push(125u8);
    assert(out@ =~= before + verifying_key_json(*vk));
}

/// Appends the JSON encoding of a signature.
fn push_signature_json(out: &mut Vec<u8>, sig: &HydraXSignature)
    ensures
        final(out)@ == old(out)@ + signature_json(*sig),
{
    let ghost before = out@;
    out.push(123u8);
    push_json_key(out, "ml_dsa_sig");
    push_json_byte_array(out, sig.ml_dsa_sig.as_slice());
    out.push(44u8);
    push_json_key(out, "slh_dsa_sig");
    push_json_byte_array(out, sig.slh_dsa_sig.as_slice());
    out.push(44u8);
    push_json_key(out, "verifying_key");
    push_verifying_key_json(out, &sig.verifying_key);
    out.push(125u8);
    assert(out@ =~= before + signature_json(*sig));
}

/// Appends the fields of a transaction before its signature.
fn push_transaction_fields_json(out: &mut Vec<u8>, tx: &Transaction)
    ensures
        final(out)@ == old(out)@ + transaction_fields_json(*tx),
{
    let ghost before = out@;
    push_json_key(out, "from");
    push_json_hex_string(out, &tx.from.0);
    out.push(44u8);
    push_json_key(out, "to");
    push_json_hex_string(out, &tx.to.0);
    out.push(44u8);
    push_json_key(out, "amount");
    push_decimal(out, tx.amount);
    out.push(44u8);
    push_json_key(out, "nonce");
    push_decimal(out, tx.nonce);
    out.push(44u8);
    push_json_key(out, "timestamp");
    push_signed_decimal(out, tx.timestamp);
    out.push(44u8);
    assert(out@ =~= before + transaction_fields_json(*tx));
}

impl Transaction {
    /// Whether the transaction is valid: both component signatures accept the
    /// canonical payload, and the signing key's address is `from`.
    pub open spec fn is_valid(self) -> bool {
        &&& self.signature.verdict(self.payload()) is Ok
        &&& Address::of_key(self.signature.verifying_key) == self.from.0@
    }

    /// The canonical payload of this transaction.
    pub open spec fn payload(self) -> Seq<u8> {
        signing_payload_bytes(self.from, self.to, self.amount, self.nonce)
    }

    /// What `verify` returns: the signature's failure, described; otherwise
    /// a mismatch between the signer's address and `from`; otherwise success.
    pub open spec fn verify_outcome(self, res: Result<(), TxError>) -> bool {
        match self.signature.verdict(self.payload()) {
            Err(e) => res matches Err(TxError::SignatureInvalid(m)) && m@ == e.message(),
            Ok(()) => if Address::of_key(self.signature.verifying_key) != self.from.0@ {
                res matches Err(TxError::SignerMismatch)
            } else {
                res matches Ok(())
            },
        }
    }

    /// The text of the error that `verify` returns for an invalid transaction.
    pub open spec fn refusal_message(self) -> Seq<char> {
        match self.signature.verdict(self.payload()) {
            Err(e) => "Signature verification failed: "@ + e.message(),
            Ok(()) => "Signer address does not match `from` field"@,
        }
    }

    /// Canonical payload: fields signed by the sender, in the mempool
    /// pipeline's layout: nonce(8) || sender(32) || recipient(32) ||
    /// value(16) || fee_per_gas(8) = 0 || gas_limit(8) = 21 000 ||
    /// data_len(8) = 0. The timestamp is not signed, nor is the signature.
    pub fn signing_payload(
        from: &Address,
        to: &Address,
        amount: u64,
        nonce: u64,
        _timestamp: i64,
    ) -> (payload: Vec<u8>)
        ensures
            payload@ == signing_payload_bytes(*from, *to, amount, nonce),
            payload@.len() == 112,
    {
        let mut buf: Vec<u8> = Vec::new();
        push_le(&mut buf, nonce as u128, 8);
        push_all(&mut buf, &from.0);
        push_all(&mut buf, &to.0);
        push_le(&mut buf, amount as u128, 16);
        push_le(&mut buf, 0, 8);
        push_le(&mut buf, TRANSFER_GAS_LIMIT as u128, 8);
        push_le(&mut buf, 0, 8);
        proof {
            lemma_le_bytes_len(nonce as nat, 8);
            lemma_le_bytes_len(amount as nat, 16);
            lemma_le_bytes_len(0, 8);
            lemma_le_bytes_len(TRANSFER_GAS_LIMIT as nat, 8);
            assert(buf@ =~= signing_payload_bytes(*from, *to, amount, nonce));
        }
        buf
    }

    /// The canonical encoding whose digest is the transaction hash.
    pub fn canonical_bytes(&self) -> (bytes: Vec<u8>)
        ensures
            bytes@ == transaction_json(*self),
    {
        let mut out: Vec<u8> = Vec::new();
        out.push(123u8);
        push_transaction_fields_json(&mut out, self);
        push_json_key(&mut out, "signature");
        push_signature_json(&mut out, &self.signature);
        out.push(125u8);
        assert(out@ =~= transaction_json(*self));
        out
    }

    /// Compute the SHA3-256 hash of this transaction.
    pub fn hash(&self) -> (h: TxHash)
        ensures
            h.0@ == transaction_hash(*self),
    {
        let bytes = self.canonical_bytes();
        TxHash(sha3_256_digest(bytes.as_slice()))
    }

    /// Verify the HYDRA-X AND-composed signature.
    ///
    /// Checks:
    ///   1. Both ML-DSA-87 and SLH-DSA signatures are valid.
    ///   2. The signing key's derived address matches `self.from`.
    pub fn verify(&self) -> (res: Result<(), TxError>)
        ensures
            self.verify_outcome(res),
            res is Ok <==> self.is_valid(),
            res matches Err(e) ==> e.message() == self.refusal_message(),
    {
        let payload = Self::signing_payload(
            &self.from,
            &self.to,
            self.amount,
            self.nonce,
            self.timestamp,
        );
        match self.signature.verify(payload.as_slice()) {
            Err(e) => {
                return Err(TxError::SignatureInvalid(e.to_string()));
            },
            Ok(()) => {},
        }
        if self.signature.signer_address() != self.from {
            return Err(TxError::SignerMismatch);
        }
        Ok(())
    }
}

/// Dual-signature enforcement: a valid transaction carries a valid ML-DSA-87
/// signature AND a valid SLH-DSA signature on its canonical payload, both
/// under the key whose address is the sender.
pub proof fn lemma_valid_transaction_has_both_signatures(tx: Transaction)
    requires
        tx.is_valid(),
    ensures
        tx.signature.ml_dsa_valid(tx.payload()),
        tx.signature.slh_dsa_valid(tx.payload()),
        Address::of_key(tx.signature.verifying_key) == tx.from.0@,
{
}

/// A signature stays bound to its sender: a transaction that carries the
/// signature of a valid transaction but names another sender is not valid.
pub proof fn lemma_changed_sender_is_refused(tx: Transaction, altered: Transaction)
    requires
        tx.is_valid(),
        altered.signature == tx.signature,
        altered.from.0@ != tx.from.0@,
    ensures
        !altered.is_valid(),
{
}

/// A transaction is valid exactly when its HYDRA-X signature verifies on
/// its payload and the signing key's address is the sender, whoever the
/// recipient is (a transfer to oneself included); `verify` then answers
/// `Ok`, and otherwise an error.
pub proof fn lemma_validity_is_signature_and_sender(tx: Transaction, res: Result<(), TxError>)
    requires
        tx.verify_outcome(res),
    ensures
        tx.is_valid() <==> (tx.signature.verdict(
            signing_payload_bytes(tx.from, tx.to, tx.amount, tx.nonce),
        ) is Ok && Address::of_key(tx.signature.verifying_key) == tx.from.0@),
        res is Ok <==> (tx.signature.verdict(
            signing_payload_bytes(tx.from, tx.to, tx.amount, tx.nonce),
        ) is Ok && Address::of_key(tx.signature.verifying_key) == tx.from.0@),
{
}

} // verus!
