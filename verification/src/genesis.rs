//! Genesis configuration — initial balances and validator set.

use vstd::prelude::*;

use crate::block::{header_hash, header_json, zero_bytes32, Block, BlockHash, BlockHeader};
use crate::crypto::{address_from_hex_result, Address, CryptoError};
use crate::encoding::hex_decode;
use crate::state::{AccountState, AccountTable, ChainState, ValidatorInfo};
use crate::tx::TxHash;

verus! {

/// 1 QTR = 1_000_000 micro-QTR
pub const MICRO_QTR: u64 = 1_000_000;

/// Genesis allocation entry.
#[derive(Clone, Debug)]
pub struct GenesisAlloc {
    pub address: String,
    pub balance: u64,
}

/// Genesis configuration file.
#[derive(Clone, Debug)]
pub struct Genesis {
    pub chain_id: String,
    pub timestamp: i64,
    pub allocations: Vec<GenesisAlloc>,
    pub validators: Vec<GenesisValidator>,
}

#[derive(Clone, Debug)]
pub struct GenesisValidator {
    pub address: String,
    pub stake: u64,
}

/// The accounts that a list of allocations opens: each address gets its
/// balance and nonce 0; a later allocation for an address overrides an
/// earlier one.
pub open spec fn allocated_accounts(allocations: Seq<GenesisAlloc>) -> Map<Seq<char>, AccountState>
    decreases allocations.len(),
{
    if allocations.len() == 0 {
        Map::empty()
    } else {
        allocated_accounts(allocations.drop_last()).insert(
            allocations.last().address@,
            AccountState { balance: allocations.last().balance, nonce: 0 },
        )
    }
}

/// The bytes of a validator's configured address text.
pub open spec fn validator_text(v: GenesisValidator) -> Seq<u8> {
    vstd::utf8::encode_utf8(v.address@)
}

/// Whether a validator's configured address is 32 bytes of hex.
pub open spec fn validator_address_parses(v: GenesisValidator) -> bool {
    hex_decode(validator_text(v)) matches Some(bytes) && bytes.len() == 32
}

/// The registered validator for a configured one whose address parses.
pub open spec fn validator_matches(v: GenesisValidator, info: ValidatorInfo) -> bool {
    &&& hex_decode(validator_text(v)) == Some(info.address.0@)
    &&& info.stake == v.stake
}

impl Genesis {
    /// Whether `h` is this configuration's genesis header: height 0, zero
    /// previous hash, zero Merkle root, zero proposer and the genesis time.
    pub open spec fn is_genesis_header(&self, h: BlockHeader) -> bool {
        &&& h.height == 0
        &&& h.prev_hash.0@ == zero_bytes32()
        &&& h.merkle_root.0@ == zero_bytes32()
        &&& h.timestamp == self.timestamp
        &&& h.proposer.0@ == zero_bytes32()
    }

    /// Whether every configured validator address is 32 bytes of hex.
    pub open spec fn validators_parse(&self) -> bool {
        forall|i: int|
            0 <= i < self.validators@.len() ==> validator_address_parses(
                #[trigger] self.validators@[i],
            )
    }

    /// Quantar Testnet genesis configuration.
    pub fn testnet() -> (g: Self)
        ensures
            g.chain_id@ == "quantar-testnet-1"@,
            g.timestamp == 1_745_000_000,
            g.allocations@.len() == 1,
            g.allocations@[0].address@ == "faucet_placeholder_replace_with_real_address"@,
            g.allocations@[0].balance == 10_000_000 * MICRO_QTR,
            g.validators@.len() == 0,
    {
        Genesis {
            chain_id: String::from_str("quantar-testnet-1"),
            timestamp: 1_745_000_000,  // fixed genesis time
            allocations: vec![
                // Faucet wallet — 10M QTR for testnet distribution
                GenesisAlloc {
                    address: String::from_str("faucet_placeholder_replace_with_real_address"),
                    balance: 10_000_000 * MICRO_QTR,
                },
            ],
            validators: Vec::new(),
        }
    }

    /// The registered validator set, or the error for the first configured
    /// address that is not 32 bytes of hex.
    pub fn validator_set(&self) -> (res: Result<Vec<ValidatorInfo>, CryptoError>)
        ensures
            res is Ok <==> self.validators_parse(),
            res matches Ok(set) ==> set@.len() == self.validators@.len() && forall|i: int|
                0 <= i < set@.len() ==> validator_matches(self.validators@[i], #[trigger] set@[i]),
            res is Err ==> exists|i: int|
                0 <= i < self.validators@.len() && (forall|j: int|
                    0 <= j < i ==> validator_address_parses(#[trigger] self.validators@[j]))
                    && address_from_hex_result(
                    validator_text(#[trigger] self.validators@[i]),
                    Err(res->Err_0),
                ),
    {
        let mut set: Vec<ValidatorInfo> = Vec::new();
        let mut i: usize = 0;
        while i < self.validators.len()
            invariant
                i <= self.validators@.len(),
                set@.len() == i,
                forall|j: int|
                    0 <= j < i ==> validator_matches(self.validators@[j], #[trigger] set@[j]),
            decreases self.validators@.len() - i,
        {
            let v = &self.validators[i];
            let text = v.address.as_str();
            let parsed = Address::from_hex(text);
            assert(address_from_hex_result(validator_text(*v), parsed));
            match parsed {
                Ok(address) => {
                    set.push(ValidatorInfo { address, stake: v.stake });
                },
                Err(e) => {
                    proof {
                        assert(!validator_address_parses(self.validators@[i as int]));
                        assert forall|j: int| 0 <= j < i implies validator_address_parses(
                            #[trigger] self.validators@[j],
                        ) by {
                            assert(validator_matches(self.validators@[j], set@[j]));
                        }
                    }
                    return Err(e);
                },
            }
            i = i + 1;
        }
        assert forall|j: int| 0 <= j < self.validators@.len() implies validator_address_parses(
            #[trigger] self.validators@[j],
        ) by {
            assert(validator_matches(self.validators@[j], set@[j]));
        }
        Ok(set)
    }

    /// Build the genesis ChainState from this configuration.
    pub fn initial_state(&self) -> (state: ChainState)
        requires
            self.validators_parse(),
        ensures
            state.height == 0,
            forall|h: BlockHeader|
                #[trigger] self.is_genesis_header(h) ==> state.block_hash.0@ == header_hash(h),
            state.accounts@ == allocated_accounts(self.allocations@),
            state.validators@.len() == self.validators@.len(),
            forall|i: int|
                0 <= i < state.validators@.len() ==> validator_matches(
                    self.validators@[i],
                    #[trigger] state.validators@[i],
                ),
    {
        let mut accounts = AccountTable::new();
        let mut i: usize = 0;
        while i < self.allocations.len()
            invariant
                i <= self.allocations@.len(),
                accounts@ == allocated_accounts(self.allocations@.subrange(0, i as int)),
            decreases self.allocations@.len() - i,
        {
            let alloc = &self.allocations[i];
            accounts.insert(alloc.address.clone(), AccountState { balance: alloc.balance, nonce: 0 });
            assert(self.allocations@.subrange(0, i + 1).drop_last() =~= self.allocations@.subrange(
                0,
                i as int,
            ));
            i = i + 1;
        }
        assert(self.allocations@.subrange(0, self.allocations@.len() as int) =~= self.allocations@);
        let validators = match self.validator_set() {
            Ok(set) => set,
            Err(_) => {
                proof {
                    assert(false);
                }
                Vec::new()
            },
        };
        let genesis = self.genesis_block();
        let genesis_hash = genesis.hash();
        let ghost genesis_header = genesis.header;
        assert forall|h: BlockHeader| #[trigger] self.is_genesis_header(h) implies genesis_hash.0@
            == header_hash(h) by {
            assert(header_json(h) =~= header_json(genesis_header));
        }
        ChainState { height: 0, block_hash: genesis_hash, accounts, validators }
    }

    /// Build the genesis block (height 0, no transactions).
    pub fn genesis_block(&self) -> (block: Block)
        ensures
            self.is_genesis_header(block.header),
            block.transactions@.len() == 0,
            block.validator_sigs@.len() == 0,
    {
        // Proposer in genesis block = zero address (no proposer)
        let proposer = Address([0u8; 32]);
        let merkle_root = TxHash([0u8; 32]);
        assert(proposer.0@ =~= zero_bytes32());
        assert(merkle_root.0@ =~= zero_bytes32());
        let header = BlockHeader {
            height: 0,
            prev_hash: BlockHash::zero(),
            merkle_root,
            timestamp: self.timestamp,
            proposer,
        };
        Block { header, transactions: Vec::new(), validator_sigs: Vec::new() }
    }
}

/// The genesis accounts: exactly the allocated addresses, each opened with
/// nonce 0 and the balance of the last allocation for that address.
pub proof fn lemma_allocated_accounts(allocations: Seq<GenesisAlloc>)
    ensures
        forall|key: Seq<char>|
            #[trigger] allocated_accounts(allocations).dom().contains(key) <==> exists|i: int|
                0 <= i < allocations.len() && (#[trigger] allocations[i]).address@ == key,
        forall|key: Seq<char>|
            #[trigger] allocated_accounts(allocations).dom().contains(key) ==> allocated_accounts(
                allocations,
            )[key].nonce == 0,
        forall|i: int|
            0 <= i < allocations.len() && (forall|j: int|
                i < j < allocations.len() ==> (#[trigger] allocations[j]).address@
                    != allocations[i].address@) ==> allocated_accounts(allocations)[(
            #[trigger] allocations[i]).address@].balance == allocations[i].balance,
    decreases allocations.len(),
{
    if allocations.len() > 0 {
        let rest = allocations.drop_last();
        lemma_allocated_accounts(rest);
        assert forall|key: Seq<char>|
            #[trigger] allocated_accounts(allocations).dom().contains(key) <==> exists|i: int|
                0 <= i < allocations.len() && (#[trigger] allocations[i]).address@ == key by {
            if allocated_accounts(allocations).dom().contains(key) {
                if key != allocations.last().address@ {
                    assert(allocated_accounts(rest).dom().contains(key));
                    let i = choose|i: int| 0 <= i < rest.len() && (#[trigger] rest[i]).address@ == key;
                    assert(allocations[i] == rest[i]);
                } else {
                    assert(allocations[allocations.len() - 1].address@ == key);
                }
            }
            if exists|i: int| 0 <= i < allocations.len() && (#[trigger] allocations[i]).address@ == key {
                let i = choose|i: int| 0 <= i < allocations.len() && (#[trigger] allocations[i]).address@ == key;
                if i < allocations.len() - 1 {
                    assert(rest[i] == allocations[i]);
                }
            }
        }
        assert forall|i: int|
            0 <= i < allocations.len() && (forall|j: int|
                i < j < allocations.len() ==> (#[trigger] allocations[j]).address@
                    != allocations[i].address@) implies allocated_accounts(allocations)[(
            #[trigger] allocations[i]).address@].balance == allocations[i].balance by {
            if i < allocations.len() - 1 {
                assert(rest[i] == allocations[i]);
                assert forall|j: int| i < j < rest.len() implies (#[trigger] rest[j]).address@
                    != rest[i].address@ by {
                    assert(rest[j] == allocations[j]);
                }
                assert(allocations[allocations.len() - 1].address@ != allocations[i].address@);
            }
        }
    }
}

} // verus!
