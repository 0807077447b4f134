//! Block and BlockHeader types, their canonical encoding and hashing, and
//! the transaction Merkle root.

use vstd::prelude::*;
use vstd::string::StringSliceAdditionalSpecFns;

use crate::crypto::{Address, HydraXSignature};
use crate::digest::{sha3_256, sha3_256_digest};
use crate::encoding::{
    decimal_ascii, hex_encode, hex_lower_chars, json_hex_string, json_key, push_all,
    push_decimal, push_json_hex_string, push_json_key, push_signed_decimal, signed_decimal_ascii,
};
use crate::tx::{transaction_hash, Transaction, TxHash};

verus! {

/// 32-byte SHA3-256 hash of a block header.
#[derive(Clone, Copy, Debug, Eq, Hash)]
pub struct BlockHash(pub [u8; 32]);

impl PartialEq for BlockHash {
    fn eq(&self, other: &Self) -> (equal: bool) {
        let mut i: usize = 0;
        while i < 32
            invariant
                i <= 32,
                forall|j: int| 0 <= j < i ==> self.0@[j] == other.0@[j],
            decreases 32 - i,
        {
            if self.0[i] != other.0[i] {
                return false;
            }
            i = i + 1;
        }
        assert(self.0@ =~= other.0@);
        true
    }
}

impl vstd::std_specs::cmp::PartialEqSpecImpl for BlockHash {
    open spec fn obeys_eq_spec() -> bool {
        true
    }

    open spec fn eq_spec(&self, other: &Self) -> bool {
        self.0@ == other.0@
    }
}

/// Thirty-two zero bytes.
pub open spec fn zero_bytes32() -> Seq<u8> {
    Seq::new(32, |i: int| 0u8)
}

impl BlockHash {
    pub fn zero() -> (h: Self)
        ensures
            h.0@ == zero_bytes32(),
    {
        let h = BlockHash([0u8; 32]);
        assert(h.0@ =~= zero_bytes32());
        h
    }

    /// Lowercase hex of the 32 bytes.
    pub fn to_string(&self) -> (text: String)
        ensures
            text@ == hex_lower_chars(self.0@),
    {
        hex_encode(&self.0)
    }
}

/// Block header — the minimal commitment signed by validators.
#[derive(Clone, Copy, Debug)]
pub struct BlockHeader {
    /// Chain height (genesis = 0)
    pub height: u64,
    /// Hash of the previous block header
    pub prev_hash: BlockHash,
    /// Merkle root of transactions in this block
    pub merkle_root: TxHash,
    /// Unix timestamp (seconds)
    pub timestamp: i64,
    /// Address of the validator that proposed this block
    pub proposer: Address,
}

/// The canonical (compact JSON) encoding of a header: the bytes that the
/// proposer signs and whose SHA3-256 digest is the block hash.
pub open spec fn header_json(h: BlockHeader) -> Seq<u8> {
    seq![123u8] + json_key("height".spec_bytes()) + decimal_ascii(h.height as nat) + seq![44u8]
        + json_key("prev_hash".spec_bytes()) + json_hex_string(h.prev_hash.0@) + seq![44u8]
        + json_key("merkle_root".spec_bytes()) + json_hex_string(h.merkle_root.0@) + seq![44u8]
        + json_key("timestamp".spec_bytes()) + signed_decimal_ascii(h.timestamp as int) + seq![
        44u8,
    ] + json_key("proposer".spec_bytes()) + json_hex_string(h.proposer.0@) + seq![125u8]
}

/// The hash of a header.
pub open spec fn header_hash(h: BlockHeader) -> Seq<u8> {
    sha3_256(header_json(h))
}

impl BlockHeader {
    /// Canonical bytes signed by the proposer.
    pub fn signing_bytes(&self) -> (bytes: Vec<u8>)
        ensures
            bytes@ == header_json(*self),
    {
        let mut out: Vec<u8> = Vec::new();
        out.push(123u8);
        push_json_key(&mut out, "height");
        push_decimal(&mut out, self.height);
        out.push(44u8);
        push_json_key(&mut out, "prev_hash");
        push_json_hex_string(&mut out, &self.prev_hash.0);
        out.push(44u8);
        push_json_key(&mut out, "merkle_root");
        push_json_hex_string(&mut out, &self.merkle_root.0);
        out.push(44u8);
        push_json_key(&mut out, "timestamp");
        push_signed_decimal(&mut out, self.timestamp);
        out.push(44u8);
        push_json_key(&mut out, "proposer");
        push_json_hex_string(&mut out, &self.proposer.0);
        out.push(125u8);
        assert(out@ =~= header_json(*self));
        out
    }

    /// SHA3-256 hash of the header.
    pub fn hash(&self) -> (h: BlockHash)
        ensures
            h.0@ == header_hash(*self),
    {
        let bytes = self.signing_bytes();
        BlockHash(sha3_256_digest(bytes.as_slice()))
    }
}

/// A validator's HYDRA-X signature over a block header.
#[derive(Debug)]
pub struct ValidatorSig {
    pub validator: Address,
    pub signature: HydraXSignature,
}

impl Clone for ValidatorSig {
    fn clone(&self) -> (copy: Self)
        ensures
            copy.validator == self.validator,
            copy.signature@ == self.signature@,
    {
        ValidatorSig { validator: self.validator, signature: self.signature.clone() }
    }
}

/// A complete block.
#[derive(Debug)]
pub struct Block {
    pub header: BlockHeader,
    pub transactions: Vec<Transaction>,
    /// Signatures from ≥ 2/3 of the validator set
    pub validator_sigs: Vec<ValidatorSig>,
}

impl Clone for Block {
    fn clone(&self) -> (copy: Self)
        ensures
            copy.header == self.header,
            copy.transactions@.len() == self.transactions@.len(),
            forall|i: int|
                0 <= i < self.transactions@.len() ==> (#[trigger] copy.transactions@[i])@
                    == self.transactions@[i]@,
            copy.validator_sigs@.len() == self.validator_sigs@.len(),
            forall|i: int|
                0 <= i < self.validator_sigs@.len() ==> (#[trigger] copy.validator_sigs@[i]).validator
                    == self.validator_sigs@[i].validator && copy.validator_sigs@[i].signature@
                    == self.validator_sigs@[i].signature@,
    {
        let mut transactions: Vec<Transaction> = Vec::new();
        let mut i: usize = 0;
        while i < self.transactions.len()
            invariant
                i <= self.transactions@.len(),
                transactions@.len() == i,
                forall|j: int|
                    0 <= j < i ==> (#[trigger] transactions@[j])@ == self.transactions@[j]@,
            decreases self.transactions@.len() - i,
        {
            transactions.push(self.transactions[i].clone());
            i = i + 1;
        }
        let mut validator_sigs: Vec<ValidatorSig> = Vec::new();
        let mut k: usize = 0;
        while k < self.validator_sigs.len()
            invariant
                k <= self.validator_sigs@.len(),
                validator_sigs@.len() == k,
                forall|j: int|
                    0 <= j < k ==> (#[trigger] validator_sigs@[j]).validator
                        == self.validator_sigs@[j].validator && validator_sigs@[j].signature@
                        == self.validator_sigs@[j].signature@,
            decreases self.validator_sigs@.len() - k,
        {
            validator_sigs.push(self.validator_sigs[k].clone());
            k = k + 1;
        }
        Block { header: self.header, transactions, validator_sigs }
    }
}

/// The concatenated hashes of a sequence of transactions.
pub open spec fn concat_tx_hashes(txs: Seq<Transaction>) -> Seq<u8>
    decreases txs.len(),
{
    if txs.len() == 0 {
        seq![]
    } else {
        concat_tx_hashes(txs.drop_last()) + transaction_hash(txs.last())
    }
}

/// The transaction Merkle root: all zeros for no transactions, otherwise the
/// SHA3-256 digest of the transaction hashes in order.
pub open spec fn merkle_root(txs: Seq<Transaction>) -> Seq<u8> {
    if txs.len() == 0 {
        zero_bytes32()
    } else {
        sha3_256(concat_tx_hashes(txs))
    }
}

/// Whether every transaction of the sequence is valid.
pub open spec fn all_valid(txs: Seq<Transaction>) -> bool {
    forall|i: int| 0 <= i < txs.len() ==> (#[trigger] txs[i]).is_valid()
}

/// Whether every signature of the sequence verifies on `message`.
pub open spec fn all_sigs_valid(sigs: Seq<ValidatorSig>, message: Seq<u8>) -> bool {
    forall|i: int| 0 <= i < sigs.len() ==> (#[trigger] sigs[i]).signature.verdict(message) is Ok
}

impl Block {
    /// Compute the transaction Merkle root (SHA3-256 of all tx hashes).
    pub fn compute_merkle_root(txs: &[Transaction]) -> (root: TxHash)
        ensures
            root.0@ == merkle_root(txs@),
    {
        if txs.len() == 0 {
            let root = TxHash([0u8; 32]);
            assert(root.0@ =~= zero_bytes32());
            return root;
        }
        let mut buf: Vec<u8> = Vec::new();
        let mut i: usize = 0;
        while i < txs.len()
            invariant
                i <= txs@.len(),
                buf@ == concat_tx_hashes(txs@.subrange(0, i as int)),
            decreases txs@.len() - i,
        {
            let h = txs[i].hash();
            push_all(&mut buf, &h.0);
            assert(txs@.subrange(0, i + 1).drop_last() =~= txs@.subrange(0, i as int));
            i = i + 1;
        }
        assert(txs@.subrange(0, txs@.len() as int) =~= txs@);
        TxHash(sha3_256_digest(buf.as_slice()))
    }

    /// Hash of this block's header.
    pub fn hash(&self) -> (h: BlockHash)
        ensures
            h.0@ == header_hash(self.header),
    {
        self.header.hash()
    }

    /// Whether every transaction is valid and every validator signature
    /// verifies on the header's canonical bytes.
    pub open spec fn is_valid(self) -> bool {
        &&& all_valid(self.transactions@)
        &&& all_sigs_valid(self.validator_sigs@, header_json(self.header))
    }

    /// Verify all transactions and validator signatures.
    pub fn verify_transactions(&self) -> (ok: bool)
        ensures
            ok == self.is_valid(),
    {
        let mut i: usize = 0;
        while i < self.transactions.len()
            invariant
                i <= self.transactions@.len(),
                forall|j: int| 0 <= j < i ==> (#[trigger] self.transactions@[j]).is_valid(),
            decreases self.transactions@.len() - i,
        {
            if self.transactions[i].verify().is_err() {
                return false;
            }
            i = i + 1;
        }
        let header_bytes = self.header.signing_bytes();
        let mut k: usize = 0;
        while k < self.validator_sigs.len()
            invariant
                k <= self.validator_sigs@.len(),
                header_bytes@ == header_json(self.header),
                forall|j: int|
                    0 <= j < k ==> (#[trigger] self.validator_sigs@[j]).signature.verdict(
                        header_json(self.header),
                    ) is Ok,
            decreases self.validator_sigs@.len() - k,
        {
            if self.validator_sigs[k].signature.verify(header_bytes.as_slice()).is_err() {
                return false;
            }
            k = k + 1;
        }
        true
    }
}

/// The Merkle root of a block's transactions: 32 zero bytes for none;
/// otherwise the SHA3-256 digest of all the transaction hashes, one after
/// another in block order (one transaction included: the digest of its
/// hash).
pub proof fn lemma_merkle_root_digests_hashes(txs: Seq<Transaction>)
    ensures
        txs.len() == 0 ==> merkle_root(txs) == Seq::new(32, |i: int| 0u8),
        txs.len() > 0 ==> merkle_root(txs) == sha3_256(
            txs.map_values(|t: Transaction| transaction_hash(t)).flatten(),
        ),
        txs.len() == 1 ==> merkle_root(txs) == sha3_256(transaction_hash(txs[0])),
{
    lemma_concat_is_flatten(txs);
    txs.map_values(|t: Transaction| transaction_hash(t)).lemma_flatten_and_flatten_alt_are_equivalent();
    if txs.len() == 1 {
        assert(txs.map_values(|t: Transaction| transaction_hash(t)).flatten() =~= transaction_hash(
            txs[0],
        )) by {
            txs.map_values(|t: Transaction| transaction_hash(t)).lemma_flatten_one_element();
        }
    }
}

proof fn lemma_concat_is_flatten(txs: Seq<Transaction>)
    ensures
        concat_tx_hashes(txs) == txs.map_values(|t: Transaction| transaction_hash(t)).flatten_alt(),
    decreases txs.len(),
{
    if txs.len() > 0 {
        lemma_concat_is_flatten(txs.drop_last());
        assert(txs.drop_last().map_values(|t: Transaction| transaction_hash(t)) =~= txs.map_values(
            |t: Transaction| transaction_hash(t),
        ).drop_last());
    }
}

} // verus!
