//! Proof-of-Authority consensus: round-robin validator rotation. Every
//! `BLOCK_TIME_SECS` seconds the next validator in the registered set
//! proposes a block; all block proposals are HYDRA-X AND-composed.

use vstd::prelude::*;

use crate::block::{
    header_hash, header_json, merkle_root, Block, BlockHeader, ValidatorSig,
};
use crate::crypto::{decimal_chars, Address, HydraXKeypair};
use crate::encoding::decimal_string;
use crate::state::{block_outcome, block_overflows, total_balance, ChainState, ValidatorInfo};
use crate::tx::{transaction_hash, Transaction, TxHash};

verus! {

/// Block time in seconds.
pub const BLOCK_TIME_SECS: u64 = 5;

/// The most transactions one block takes from the mempool.
pub const MAX_BLOCK_TXS: usize = 500;

#[derive(Debug)]
pub enum ConsensusError {
    NotProposer { height: u64 },
    WrongHeight { expected: u64, got: u64 },
    InvalidSig(String),
    InsufficientSigs { need: usize, got: usize },
    InvalidTx(String),
}

impl ConsensusError {
    /// The text that describes the error.
    pub open spec fn message(&self) -> Seq<char> {
        match self {
            ConsensusError::NotProposer { height } => "Not the current proposer for height "@
                + decimal_chars(*height as nat),
            ConsensusError::WrongHeight { expected, got } => "Invalid block height: expected "@
                + decimal_chars(*expected as nat) + ", got "@ + decimal_chars(*got as nat),
            ConsensusError::InvalidSig(detail) => "Block signature invalid: "@ + detail@,
            ConsensusError::InsufficientSigs { need, got } =>
                "Insufficient validator signatures: need "@ + decimal_chars(*need as nat)
                + ", got "@ + decimal_chars(*got as nat),
            ConsensusError::InvalidTx(detail) => "Block transactions invalid: "@ + detail@,
        }
    }

    /// The text that describes the error.
    pub fn to_string(&self) -> (text: String)
        ensures
            text@ == self.message(),
    {
        match self {
            ConsensusError::NotProposer { height } => {
                let h = decimal_string(*height);
                String::from_str("Not the current proposer for height ").concat(h.as_str())
            },
            ConsensusError::WrongHeight { expected, got } => {
                let e = decimal_string(*expected);
                let g = decimal_string(*got);
                String::from_str("Invalid block height: expected ").concat(e.as_str()).concat(
                    ", got ",
                ).concat(g.as_str())
            },
            ConsensusError::InvalidSig(detail) => String::from_str(
                "Block signature invalid: ",
            ).concat(detail.as_str()),
            ConsensusError::InsufficientSigs { need, got } => {
                let n = decimal_string(*need as u64);
                let g = decimal_string(*got as u64);
                String::from_str("Insufficient validator signatures: need ").concat(
                    n.as_str(),
                ).concat(", got ").concat(g.as_str())
            },
            ConsensusError::InvalidTx(detail) => String::from_str(
                "Block transactions invalid: ",
            ).concat(detail.as_str()),
        }
    }
}

/// The current Unix time in seconds, from chrono's `Utc::now`. Nothing is
/// claimed of it: it is the machine's clock.
#[verifier::external_body]
fn unix_now() -> i64 {
    chrono::Utc::now().timestamp()
}

/// The validator that should propose at `height`: validators take turns in
/// registration order; with no validators there is none.
pub open spec fn proposer_for(validators: Seq<ValidatorInfo>, height: u64) -> Option<Address> {
    if validators.len() == 0 {
        None
    } else {
        Some(validators[((height as usize) as int) % (validators.len() as int)].address)
    }
}

/// The index of the first signature made by `proposer`, if any.
pub open spec fn proposer_sig_index(sigs: Seq<ValidatorSig>, proposer: Address) -> Option<int>
    decreases sigs.len(),
{
    if sigs.len() == 0 {
        None
    } else {
        match proposer_sig_index(sigs.drop_last(), proposer) {
            Some(i) => Some(i),
            None => if sigs.last().validator.0@ == proposer.0@ {
                Some(sigs.len() - 1)
            } else {
                None
            },
        }
    }
}

/// The check of a block's proposer signature: the first signature by the
/// proposer must verify on the header's canonical bytes, under a key whose
/// address is the proposer's; a block with no
/// signatures at all passes (single-node mode); a block with signatures
/// but none by the proposer fails. An error gives the text of the failure.
pub open spec fn proposer_sig_check(block: Block) -> Result<(), Seq<char>> {
    let sigs = block.validator_sigs@;
    match proposer_sig_index(sigs, block.header.proposer) {
        Some(i) => match sigs[i].signature.verdict(header_json(block.header)) {
            Ok(()) => if Address::of_key(sigs[i].signature.verifying_key) == block.header.proposer.0@ {
                Ok(())
            } else {
                Err("signer address does not match proposer"@)
            },
            Err(e) => Err(e.message()),
        },
        None => if sigs.len() == 0 {
            Ok(())
        } else {
            Err("proposer signature not found"@)
        },
    }
}

/// Whether `sig` is the validator `v`'s own signature on `message`: it
/// names `v`, verifies on `message`, and its key's address is `v`'s.
pub open spec fn signed_by(v: ValidatorInfo, sig: ValidatorSig, message: Seq<u8>) -> bool {
    &&& sig.validator.0@ == v.address.0@
    &&& sig.signature.verdict(message) is Ok
    &&& Address::of_key(sig.signature.verifying_key) == v.address.0@
}

/// Whether the validator `v` has a signature in `sigs` that verifies on
/// `message` under its own key.
pub open spec fn validator_signed(v: ValidatorInfo, sigs: Seq<ValidatorSig>, message: Seq<u8>) -> bool {
    exists|j: int| 0 <= j < sigs.len() && signed_by(v, #[trigger] sigs[j], message)
}

/// The number of registered validators that have signed `message`.
pub open spec fn signed_count(
    validators: Seq<ValidatorInfo>,
    sigs: Seq<ValidatorSig>,
    message: Seq<u8>,
) -> nat
    decreases validators.len(),
{
    if validators.len() == 0 {
        0
    } else {
        signed_count(validators.drop_last(), sigs, message) + if validator_signed(
            validators.last(),
            sigs,
            message,
        ) {
            1nat
        } else {
            0nat
        }
    }
}

/// The fewest signers that make at least two thirds of `n` validators.
pub open spec fn quorum_need(n: nat) -> nat {
    (2 * n + 2) / 3
}

/// Whether the signatures finalise a block: at least two thirds of the
/// registered validators signed its header; with no registered validators
/// (single-node mode) there is nothing to count.
pub open spec fn quorum_met(
    validators: Seq<ValidatorInfo>,
    sigs: Seq<ValidatorSig>,
    message: Seq<u8>,
) -> bool {
    validators.len() == 0 || 3 * signed_count(validators, sigs, message) >= 2 * validators.len()
}

proof fn lemma_signed_count_bound(
    validators: Seq<ValidatorInfo>,
    sigs: Seq<ValidatorSig>,
    message: Seq<u8>,
)
    ensures
        signed_count(validators, sigs, message) <= validators.len(),
    decreases validators.len(),
{
    if validators.len() > 0 {
        lemma_signed_count_bound(validators.drop_last(), sigs, message);
    }
}

/// Whether `v` has a signature in `sigs` that verifies on `message`.
fn has_signed(v: &ValidatorInfo, sigs: &Vec<ValidatorSig>, message: &Vec<u8>) -> (signed: bool)
    ensures
        signed == validator_signed(*v, sigs@, message@),
{
    let mut j: usize = 0;
    while j < sigs.len()
        invariant
            j <= sigs@.len(),
            forall|k: int| 0 <= k < j ==> !signed_by(*v, #[trigger] sigs@[k], message@),
        decreases sigs@.len() - j,
    {
        if sigs[j].validator == v.address {
            if sigs[j].signature.verify(message.as_slice()).is_ok() {
                if sigs[j].signature.signer_address() == v.address {
                    return true;
                }
            }
        }
        j = j + 1;
    }
    false
}

/// The number of registered validators that have signed `message`.
fn count_signers(
    validators: &Vec<ValidatorInfo>,
    sigs: &Vec<ValidatorSig>,
    message: &Vec<u8>,
) -> (count: usize)
    ensures
        count == signed_count(validators@, sigs@, message@),
{
    let mut count: usize = 0;
    let mut i: usize = 0;
    while i < validators.len()
        invariant
            i <= validators@.len(),
            count == signed_count(validators@.subrange(0, i as int), sigs@, message@),
        decreases validators@.len() - i,
    {
        proof {
            lemma_signed_count_bound(validators@.subrange(0, i as int), sigs@, message@);
            assert(validators@.subrange(0, i + 1).drop_last() =~= validators@.subrange(0, i as int));
        }
        if has_signed(&validators[i], sigs, message) {
            count = count + 1;
        }
        i = i + 1;
    }
    assert(validators@.subrange(0, validators@.len() as int) =~= validators@);
    count
}

/// What one slot of the block producer did.
#[derive(Debug)]
pub enum BlockProduction {
    /// Another validator has the turn at this height.
    NotProposer { height: u64 },
    /// This node proposed the block and committed it.
    Committed(Block),
    /// This node proposed the block and its commit was refused.
    Rejected(Block, ConsensusError),
    /// This node proposed the block, but applying it would overflow a
    /// balance or a nonce; nothing was committed.
    WouldOverflow(Block),
}

/// Whether a commit of `block` on `state` passes the height, transaction and
/// proposer-signature checks and the quorum, and goes on to apply the
/// transactions.
pub open spec fn commit_passes(state: ChainState, block: Block) -> bool {
    &&& block.header.height == state.height + 1
    &&& block.is_valid()
    &&& proposer_sig_check(block) is Ok
    &&& quorum_met(state.validators@, block.validator_sigs@, header_json(block.header))
}

/// What a commit of `block` does to the chain state `before`, leaving
/// `after` and answering `res`: the checks in order (height, transactions
/// and validator signatures, the proposer's signature, the two-thirds
/// quorum), each refusal with its error; then the transactions applied in
/// order. A refused block changes nothing; total supply never changes.
pub open spec fn commit_effect(
    before: ChainState,
    block: Block,
    after: ChainState,
    res: Result<(), ConsensusError>,
) -> bool {
    let height_ok = block.header.height == before.height + 1;
    let message = header_json(block.header);
    &&& after.validators@ == before.validators@
    &&& total_balance(after.accounts@) == total_balance(before.accounts@)
    &&& res is Err ==> after == before
    &&& !height_ok ==> res == Err::<(), ConsensusError>(
        ConsensusError::WrongHeight { expected: (before.height + 1) as u64, got: block.header.height },
    )
    &&& height_ok && !block.is_valid() ==> (res matches Err(ConsensusError::InvalidTx(m)) && m@
        == "one or more transactions failed HYDRA-X verification"@)
    &&& height_ok && block.is_valid() && proposer_sig_check(block) is Err ==> (res matches Err(
        ConsensusError::InvalidSig(m),
    ) && Err::<(), Seq<char>>(m@) == proposer_sig_check(block))
    &&& height_ok && block.is_valid() && proposer_sig_check(block) is Ok && !quorum_met(
        before.validators@,
        block.validator_sigs@,
        message,
    ) ==> res == Err::<(), ConsensusError>(
        ConsensusError::InsufficientSigs {
            need: quorum_need(before.validators@.len()) as usize,
            got: signed_count(before.validators@, block.validator_sigs@, message) as usize,
        },
    )
    &&& commit_passes(before, block) ==> {
        let outcome = block_outcome(before.accounts@, block.transactions@);
        match outcome.1 {
            Ok(()) => res is Ok && after.accounts@ == outcome.0 && after.height
                == block.header.height && after.block_hash.0@ == header_hash(block.header),
            Err(e) => res matches Err(ConsensusError::InvalidTx(m)) && m@ == e.message(),
        }
    }
}

/// The consensus engine — holds chain state and mempool.
pub struct ConsensusEngine {
    /// Current chain state (append-only, updated on commit)
    pub state: ChainState,
    /// Pending transactions not yet in a block
    pub mempool: Vec<Transaction>,
    /// This node's keypair (used when this node is the proposer)
    pub keypair: HydraXKeypair,
    /// This node's address
    pub address: Address,
}

impl ConsensusEngine {
    /// The verifying key of this node's keypair.
    pub open spec fn node_key(&self) -> (Seq<u8>, Seq<u8>) {
        self.keypair.verifying_key@
    }

    /// Whether a commit of `block` passes the height, transaction and
    /// proposer-signature checks and goes on to apply the transactions.
    pub open spec fn commit_reaches_apply(&self, block: Block) -> bool {
        commit_passes(self.state, block)
    }

    pub fn new(state: ChainState, keypair: HydraXKeypair) -> (engine: Self)
        ensures
            engine.state == state,
            engine.mempool@.len() == 0,
            engine.node_key() == keypair.verifying_key@,
            engine.keypair == keypair,
            engine.address.0@ == Address::of_key(keypair.verifying_key),
    {
        let address = keypair.address();
        ConsensusEngine { state, mempool: Vec::new(), keypair, address }
    }

    /// Return the validator that should propose at `height`.
    pub fn proposer_at(&self, height: u64) -> (proposer: Option<Address>)
        ensures
            proposer == proposer_for(self.state.validators@, height),
    {
        if self.state.validators.len() == 0 {
            return None;
        }
        let idx = (height as usize) % self.state.validators.len();
        Some(self.state.validators[idx].address)
    }

    /// Add a transaction to the mempool after basic validation.
    pub fn submit_tx(&mut self, tx: Transaction) -> (res: Result<TxHash, ConsensusError>)
        ensures
            final(self).state == old(self).state,
            final(self).address == old(self).address,
            final(self).node_key() == old(self).node_key(),
            res is Ok <==> tx.is_valid(),
            res matches Ok(h) ==> h.0@ == transaction_hash(tx) && final(self).mempool@ == old(
                self,
            ).mempool@.push(tx),
            res matches Err(e) ==> e matches ConsensusError::InvalidTx(m) && m@
                == tx.refusal_message() && final(self).mempool@ == old(self).mempool@,
    {
        match tx.verify() {
            Err(e) => {
                return Err(ConsensusError::InvalidTx(e.to_string()));
            },
            Ok(()) => {},
        }
        let hash = tx.hash();
        self.mempool.push(tx);
        Ok(hash)
    }

    /// Propose a new block, stamped with the current time, if this node is
    /// the current proposer.
    pub fn propose_block(&mut self) -> (res: Result<Block, ConsensusError>)
        requires
            old(self).state.height < u64::MAX,
        ensures
            exists|timestamp: i64| #[trigger] old(self).proposal(timestamp, *final(self), res),
    {
        let timestamp = unix_now();
        self.propose_block_at(timestamp)
    }

    /// The height of the next block.
    pub open spec fn next_height(&self) -> u64 {
        (self.state.height + 1) as u64
    }

    /// How many mempool transactions the next block takes.
    pub open spec fn taken(&self) -> nat {
        if self.mempool@.len() < MAX_BLOCK_TXS {
            self.mempool@.len()
        } else {
            MAX_BLOCK_TXS as nat
        }
    }

    /// Whether another validator has the turn at the next height.
    pub open spec fn other_has_turn(&self) -> bool {
        match proposer_for(self.state.validators@, self.next_height()) {
            Some(p) => p.0@ != self.address.0@,
            None => false,
        }
    }

    /// The block this engine proposes at `timestamp`: at the next height,
    /// taking the oldest transactions of the mempool (at most
    /// `MAX_BLOCK_TXS`, in order), committing to them by their Merkle root,
    /// extending the current block hash, stamped with `timestamp`, proposed
    /// by this node and carrying this node's signature alone, which verifies
    /// on the header when the node's keys match.
    pub open spec fn proposed_block(&self, timestamp: i64, block: Block) -> bool {
        &&& block.transactions@ == self.mempool@.subrange(0, self.taken() as int)
        &&& block.header.height == self.next_height()
        &&& block.header.prev_hash == self.state.block_hash
        &&& block.header.merkle_root.0@ == merkle_root(block.transactions@)
        &&& block.header.timestamp == timestamp
        &&& block.header.proposer == self.address
        &&& block.validator_sigs@.len() == 1
        &&& block.validator_sigs@[0].validator == self.address
        &&& block.validator_sigs@[0].signature.verifying_key@ == self.node_key()
        &&& self.keypair.keys_match() ==> block.validator_sigs@[0].signature.verdict(
            header_json(block.header),
        ) is Ok
    }

    /// The mempool after the next block has taken its transactions.
    pub open spec fn mempool_rest(&self) -> Seq<Transaction> {
        self.mempool@.subrange(self.taken() as int, self.mempool@.len() as int)
    }

    /// What a proposal at `timestamp` from this engine gives: refused with
    /// `NotProposer` and nothing changed when another validator has the
    /// turn; otherwise the proposed block, with its transactions taken from
    /// the mempool. The state, address and keys never change.
    pub open spec fn proposal(
        &self,
        timestamp: i64,
        after: ConsensusEngine,
        res: Result<Block, ConsensusError>,
    ) -> bool {
        &&& after.state == self.state
        &&& after.address == self.address
        &&& after.node_key() == self.node_key()
        &&& after.keypair == self.keypair
        &&& self.other_has_turn() <==> res is Err
        &&& res matches Err(e) ==> e == ConsensusError::NotProposer { height: self.next_height() }
            && after.mempool@ == self.mempool@
        &&& res matches Ok(block) ==> self.proposed_block(timestamp, block) && after.mempool@
            == self.mempool_rest()
    }

    /// Propose a new block stamped with `timestamp` if this node is the
    /// current proposer.
    pub fn propose_block_at(&mut self, timestamp: i64) -> (res: Result<Block, ConsensusError>)
        requires
            old(self).state.height < u64::MAX,
        ensures
            old(self).proposal(timestamp, *final(self), res),
    {
        let next_height = self.state.height + 1;
        let proposer = match self.proposer_at(next_height) {
            Some(p) => p,
            None => self.address,
        };
        if proposer != self.address && self.state.validators.len() != 0 {
            return Err(ConsensusError::NotProposer { height: next_height });
        }
        let n = if self.mempool.len() < MAX_BLOCK_TXS {
            self.mempool.len()
        } else {
            MAX_BLOCK_TXS
        };
        let mut txs = self.mempool.split_off(n);
        std::mem::swap(&mut txs, &mut self.mempool);
        let merkle_root = Block::compute_merkle_root(txs.as_slice());
        let prev_hash = self.state.block_hash;
        let header = BlockHeader {
            height: next_height,
            prev_hash,
            merkle_root,
            timestamp,
            proposer: self.address,
        };
        let header_bytes = header.signing_bytes();
        let sig = self.keypair.sign(header_bytes.as_slice());
        let validator_sig = ValidatorSig { validator: self.address, signature: sig };
        let mut validator_sigs: Vec<ValidatorSig> = Vec::new();
        validator_sigs.push(validator_sig);
        Ok(Block { header, transactions: txs, validator_sigs })
    }

    /// Check the proposer's signature on a block.
    fn verify_proposer_sig(&self, block: &Block) -> (res: Result<(), ConsensusError>)
        ensures
            match proposer_sig_check(*block) {
                Ok(()) => res is Ok,
                Err(text) => res matches Err(ConsensusError::InvalidSig(m)) && m@ == text,
            },
    {
        let header_bytes = block.header.signing_bytes();
        let sigs = &block.validator_sigs;
        let mut i: usize = 0;
        while i < sigs.len()
            invariant
                sigs == &block.validator_sigs,
                header_bytes@ == header_json(block.header),
                i <= sigs@.len(),
                proposer_sig_index(sigs@.subrange(0, i as int), block.header.proposer) is None,
            decreases sigs@.len() - i,
        {
            proof {
                assert(sigs@.subrange(0, i + 1).drop_last() =~= sigs@.subrange(0, i as int));
                lemma_first_index_extends(sigs@, block.header.proposer, i as int);
            }
            if sigs[i].validator == block.header.proposer {
                return match sigs[i].signature.verify(header_bytes.as_slice()) {
                    Ok(()) => if sigs[i].signature.signer_address() == block.header.proposer {
                        Ok(())
                    } else {
                        Err(
                            ConsensusError::InvalidSig(
                                String::from_str("signer address does not match proposer"),
                            ),
                        )
                    },
                    Err(e) => Err(ConsensusError::InvalidSig(e.to_string())),
                };
            }
            i = i + 1;
        }
        assert(sigs@.subrange(0, sigs@.len() as int) =~= sigs@);
        if sigs.len() == 0 {
            return Ok(());
        }
        Err(ConsensusError::InvalidSig(String::from_str("proposer signature not found")))
    }

    /// Commit a finalized block to the chain state. The state changes only
    /// when the block is committed: a refused block leaves it as it was.
    pub fn commit_block(&mut self, block: Block) -> (res: Result<(), ConsensusError>)
        requires
            old(self).state.height < u64::MAX,
            old(self).commit_reaches_apply(block) ==> !block_overflows(
                old(self).state.accounts@,
                block.transactions@,
            ),
        ensures
            final(self).mempool@ == old(self).mempool@,
            final(self).address == old(self).address,
            final(self).node_key() == old(self).node_key(),
            final(self).keypair == old(self).keypair,
            commit_effect(old(self).state, block, final(self).state, res),
    {
        self.commit_checked(&block)
    }

    /// The checks and the application behind `commit_block`, on a borrowed
    /// block.
    fn commit_checked(&mut self, block: &Block) -> (res: Result<(), ConsensusError>)
        requires
            old(self).state.height < u64::MAX,
            old(self).commit_reaches_apply(*block) ==> !block_overflows(
                old(self).state.accounts@,
                block.transactions@,
            ),
        ensures
            final(self).mempool@ == old(self).mempool@,
            final(self).address == old(self).address,
            final(self).node_key() == old(self).node_key(),
            final(self).keypair == old(self).keypair,
            commit_effect(old(self).state, *block, final(self).state, res),
    {
        let expected = self.state.height + 1;
        if block.header.height != expected {
            return Err(ConsensusError::WrongHeight { expected, got: block.header.height });
        }
        if !block.verify_transactions() {
            return Err(
                ConsensusError::InvalidTx(
                    String::from_str("one or more transactions failed HYDRA-X verification"),
                ),
            );
        }
        match self.verify_proposer_sig(block) {
            Err(e) => {
                return Err(e);
            },
            Ok(()) => {},
        }
        let n = self.state.validators.len();
        if n != 0 {
            let header_bytes = block.header.signing_bytes();
            let got = count_signers(&self.state.validators, &block.validator_sigs, &header_bytes);
            if 3 * (got as u128) < 2 * (n as u128) {
                let need = ((2 * (n as u128) + 2) / 3) as usize;
                return Err(ConsensusError::InsufficientSigs { need, got });
            }
        }
        let mut next = self.state.clone();
        match next.apply_block(block) {
            Err(e) => Err(ConsensusError::InvalidTx(e.to_string())),
            Ok(()) => {
                self.state = next;
                Ok(())
            },
        }
    }
}

impl ConsensusEngine {
    /// What one producer slot at `timestamp` gives: when another validator
    /// has the turn, nothing changes; otherwise this node proposes its block
    /// (taking its transactions from the mempool) and, unless applying it
    /// would overflow, commits it, with the commit's outcome.
    pub open spec fn production(
        &self,
        timestamp: i64,
        after: ConsensusEngine,
        outcome: BlockProduction,
    ) -> bool {
        &&& after.address == self.address
        &&& after.keypair == self.keypair
        &&& self.other_has_turn() <==> outcome is NotProposer
        &&& match outcome {
            BlockProduction::NotProposer { height } => height == self.next_height() && after.state
                == self.state && after.mempool@ == self.mempool@,
            BlockProduction::WouldOverflow(block) => self.proposed_block(timestamp, block)
                && after.mempool@ == self.mempool_rest() && block_overflows(
                self.state.accounts@,
                block.transactions@,
            ) && after.state == self.state,
            BlockProduction::Committed(block) => self.proposed_block(timestamp, block)
                && after.mempool@ == self.mempool_rest() && !block_overflows(
                self.state.accounts@,
                block.transactions@,
            ) && commit_effect(self.state, block, after.state, Ok(())),
            BlockProduction::Rejected(block, e) => self.proposed_block(timestamp, block)
                && after.mempool@ == self.mempool_rest() && !block_overflows(
                self.state.accounts@,
                block.transactions@,
            ) && commit_effect(self.state, block, after.state, Err(e)),
        }
    }

    /// One producer slot, stamped with the current time.
    pub fn produce_block(&mut self) -> (outcome: BlockProduction)
        requires
            old(self).state.height < u64::MAX,
        ensures
            exists|timestamp: i64| #[trigger] old(self).production(timestamp, *final(self), outcome),
    {
        let timestamp = unix_now();
        self.produce_block_at(timestamp)
    }

    /// One producer slot at `timestamp`: propose a block if this node has
    /// the turn and commit it, unless applying it would overflow.
    pub fn produce_block_at(&mut self, timestamp: i64) -> (outcome: BlockProduction)
        requires
            old(self).state.height < u64::MAX,
        ensures
            old(self).production(timestamp, *final(self), outcome),
    {
        let block = match self.propose_block_at(timestamp) {
            Ok(block) => block,
            Err(_) => {
                // A proposal is refused only when another validator has the
                // turn at the next height; the state is unchanged.
                return BlockProduction::NotProposer { height: self.state.height + 1 };
            },
        };
        if self.state.block_would_overflow(&block.transactions) {
            return BlockProduction::WouldOverflow(block);
        }
        match self.commit_checked(&block) {
            Ok(()) => BlockProduction::Committed(block),
            Err(e) => BlockProduction::Rejected(block, e),
        }
    }
}

/// A block that this node proposes is at the height that a commit on the
/// unchanged state expects next, and extends the current block hash.
pub proof fn lemma_proposal_is_next(
    engine: ConsensusEngine,
    timestamp: i64,
    after: ConsensusEngine,
    res: Result<Block, ConsensusError>,
)
    requires
        engine.state.height < u64::MAX,
        engine.proposal(timestamp, after, res),
        res is Ok,
    ensures
        res->Ok_0.header.height == after.state.height + 1,
        res->Ok_0.header.prev_hash == after.state.block_hash,
{
}

proof fn lemma_first_index_extends(sigs: Seq<ValidatorSig>, proposer: Address, i: int)
    requires
        0 <= i < sigs.len(),
        proposer_sig_index(sigs.subrange(0, i), proposer) is None,
    ensures
        proposer_sig_index(sigs.subrange(0, i + 1), proposer) == (if sigs[i].validator.0@
            == proposer.0@ {
            Some(i)
        } else {
            None::<int>
        }),
        sigs[i].validator.0@ == proposer.0@ ==> forall|j: int|
            i + 1 <= j <= sigs.len() ==> proposer_sig_index(#[trigger] sigs.subrange(0, j), proposer)
                == Some(i),
{
    assert(sigs.subrange(0, i + 1).drop_last() =~= sigs.subrange(0, i));
    if sigs[i].validator.0@ == proposer.0@ {
        assert forall|j: int| i + 1 <= j <= sigs.len() implies proposer_sig_index(
            #[trigger] sigs.subrange(0, j),
            proposer,
        ) == Some(i) by {
            lemma_index_stable(sigs, proposer, i, j);
        }
    }
}

proof fn lemma_index_stable(sigs: Seq<ValidatorSig>, proposer: Address, i: int, j: int)
    requires
        0 <= i < j <= sigs.len(),
        proposer_sig_index(sigs.subrange(0, i + 1), proposer) == Some(i),
    ensures
        proposer_sig_index(sigs.subrange(0, j), proposer) == Some(i),
    decreases j - i,
{
    if j > i + 1 {
        lemma_index_stable(sigs, proposer, i, j - 1);
        assert(sigs.subrange(0, j).drop_last() =~= sigs.subrange(0, j - 1));
    }
}

/// A block that passes the commit checks and carries any signatures carries
/// the proposer's own: one naming the proposer that verifies on the header
/// under a key whose address is the proposer's.
pub proof fn lemma_passing_block_is_signed_by_proposer(state: ChainState, block: Block)
    requires
        commit_passes(state, block),
        block.validator_sigs@.len() > 0,
    ensures
        exists|i: int|
            0 <= i < block.validator_sigs@.len() && (#[trigger] block.validator_sigs@[i]).validator.0@
                == block.header.proposer.0@ && block.validator_sigs@[i].signature.verdict(
                header_json(block.header),
            ) is Ok && Address::of_key(block.validator_sigs@[i].signature.verifying_key)
                == block.header.proposer.0@,
{
    lemma_index_in_range(block.validator_sigs@, block.header.proposer);
    let i = proposer_sig_index(block.validator_sigs@, block.header.proposer)->Some_0;
    assert(block.validator_sigs@[i].validator.0@ == block.header.proposer.0@);
}

proof fn lemma_index_in_range(sigs: Seq<ValidatorSig>, proposer: Address)
    ensures
        proposer_sig_index(sigs, proposer) matches Some(i) ==> 0 <= i < sigs.len()
            && sigs[i].validator.0@ == proposer.0@,
    decreases sigs.len(),
{
    if sigs.len() > 0 {
        lemma_index_in_range(sigs.drop_last(), proposer);
    }
}

/// Round-robin rotation: with validators registered, the proposer at
/// `height` is the validator at position `height` modulo their number
/// (every height a platform index can name).
pub proof fn lemma_proposer_round_robin(validators: Seq<ValidatorInfo>, height: u64)
    requires
        validators.len() > 0,
        height <= usize::MAX,
    ensures
        proposer_for(validators, height) == Some(
            validators[height as int % validators.len() as int].address,
        ),
{
}

/// Every validator gets the turn once in each run of as many heights as
/// there are validators: the proposer repeats with that period, and the
/// validator at position `i` has the turn at height `i`.
pub proof fn lemma_proposer_period(validators: Seq<ValidatorInfo>, height: u64, i: int)
    requires
        validators.len() > 0,
        height + validators.len() <= usize::MAX,
        0 <= i < validators.len(),
    ensures
        proposer_for(validators, (height + validators.len()) as u64) == proposer_for(
            validators,
            height,
        ),
        proposer_for(validators, i as u64) == Some(validators[i].address),
{
    let n = validators.len() as int;
    assert((height + n) % n == height as int % n) by (nonlinear_arith)
        requires
            n > 0,
            height >= 0,
    {
        vstd::arithmetic::div_mod::lemma_mod_add_multiples_vanish(height as int, n);
    }
    vstd::arithmetic::div_mod::lemma_small_mod(i as nat, n as nat);
}

/// The signers that count towards the quorum are exactly the registered
/// validators that signed the message with their own key: their number is
/// the length of that sub-list of the validators.
pub proof fn lemma_signed_count_is_signers(
    validators: Seq<ValidatorInfo>,
    sigs: Seq<ValidatorSig>,
    message: Seq<u8>,
)
    ensures
        signed_count(validators, sigs, message) == validators.filter(
            |v: ValidatorInfo| validator_signed(v, sigs, message),
        ).len(),
        signed_count(validators, sigs, message) <= validators.len(),
    decreases validators.len(),
{
    reveal(Seq::filter);
    lemma_signed_count_bound(validators, sigs, message);
    if validators.len() > 0 {
        lemma_signed_count_is_signers(validators.drop_last(), sigs, message);
    }
}

/// Two-thirds finality: a commit that succeeds with validators registered
/// had at least two thirds of them sign the header with their own keys.
/// So with four validators, two signers never suffice.
pub proof fn lemma_commit_needs_two_thirds(
    before: ChainState,
    block: Block,
    after: ChainState,
    res: Result<(), ConsensusError>,
)
    requires
        commit_effect(before, block, after, res),
        res is Ok,
        before.validators@.len() > 0,
    ensures
        3 * signed_count(before.validators@, block.validator_sigs@, header_json(block.header)) >= 2
            * before.validators@.len(),
        block.header.height == before.height + 1,
        block.is_valid(),
{
}

/// Below two thirds, a commit that reaches the quorum check is refused with
/// the number needed (the least count that is two thirds) and the number
/// that signed, and changes nothing.
pub proof fn lemma_commit_below_two_thirds_refused(
    before: ChainState,
    block: Block,
    after: ChainState,
    res: Result<(), ConsensusError>,
)
    requires
        commit_effect(before, block, after, res),
        block.header.height == before.height + 1,
        block.is_valid(),
        proposer_sig_check(block) is Ok,
        before.validators@.len() > 0,
        3 * signed_count(before.validators@, block.validator_sigs@, header_json(block.header)) < 2
            * before.validators@.len(),
    ensures
        after == before,
        res matches Err(ConsensusError::InsufficientSigs { need, got }) && got == signed_count(
            before.validators@,
            block.validator_sigs@,
            header_json(block.header),
        ) && 3 * need >= 2 * before.validators@.len() && 3 * (need - 1) < 2
            * before.validators@.len(),
{
    let n = before.validators@.len();
    let c = signed_count(before.validators@, block.validator_sigs@, header_json(block.header));
    lemma_signed_count_bound(before.validators@, block.validator_sigs@, header_json(block.header));
    assert(n == before.validators.len());
    let q = quorum_need(n);
    assert(3 * q >= 2 * n && 3 * (q - 1) < 2 * n && q <= n) by (nonlinear_arith)
        requires
            q == (2 * n + 2) / 3,
            n > 0,
    ;
    assert(q as usize == q);
    assert(c as usize == c);
}

/// A validator counts as a signer exactly when one of the signatures names
/// it, verifies on the message, and was made with a key whose address is
/// that validator's own; a signature under any other key never counts.
pub proof fn lemma_signer_uses_own_key(v: ValidatorInfo, sigs: Seq<ValidatorSig>, message: Seq<u8>)
    ensures
        validator_signed(v, sigs, message) <==> exists|j: int|
            0 <= j < sigs.len() && (#[trigger] sigs[j]).validator.0@ == v.address.0@
                && sigs[j].signature.verdict(message) is Ok && Address::of_key(
                sigs[j].signature.verifying_key,
            ) == v.address.0@,
{
}

} // verus!
