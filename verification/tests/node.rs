use qtrc::adapter::{hx_hash_to_qtrc, to_raw_transaction};
use qtrc::block::{Block, BlockHash, BlockHeader, ValidatorSig};
use qtrc::consensus::{BlockProduction, ConsensusEngine, ConsensusError, BLOCK_TIME_SECS};
use qtrc::crypto::{Address, HydraXKeypair, HydraXSignature, HydraXVerifyingKey};
use qtrc::genesis::{Genesis, GenesisAlloc, GenesisValidator, MICRO_QTR};
use qtrc::state::{AccountState, AccountTable, ChainState, ValidatorInfo};
use qtrc::storage::{height_from_key, height_key};
use qtrc::tx::{Transaction, TxHash};

fn signed_tx(kp: &HydraXKeypair, to: Address, amount: u64, nonce: u64) -> Transaction {
    let from = kp.address();
    let payload = Transaction::signing_payload(&from, &to, amount, nonce, 0);
    let signature = kp.sign(&payload);
    Transaction { from, to, amount, nonce, timestamp: 0, signature }
}

fn state_with(validators: Vec<ValidatorInfo>) -> ChainState {
    ChainState { height: 0, block_hash: BlockHash::zero(), accounts: AccountTable::new(), validators }
}

#[test]
fn testnet_genesis_values() {
    let g = Genesis::testnet();
    assert_eq!(g.chain_id, "quantar-testnet-1");
    assert_eq!(g.timestamp, 1_745_000_000);
    assert_eq!(g.allocations.len(), 1);
    assert_eq!(g.allocations[0].address, "faucet_placeholder_replace_with_real_address");
    assert_eq!(g.allocations[0].balance, 10_000_000 * MICRO_QTR);
    assert_eq!(g.allocations[0].balance, 10_000_000_000_000);
    assert!(g.validators.is_empty());
}

#[test]
fn testnet_initial_state() {
    let g = Genesis::testnet();
    let s = g.initial_state();
    assert_eq!(s.height, 0);
    assert_eq!(s.block_hash, g.genesis_block().hash());
    assert_ne!(s.block_hash, BlockHash::zero());
    assert_eq!(s.accounts.len(), 1);
    let faucet = s.accounts.get(&"faucet_placeholder_replace_with_real_address".to_string()).unwrap();
    assert_eq!((faucet.balance, faucet.nonce), (10_000_000 * MICRO_QTR, 0));
    assert!(s.validators.is_empty());
}

#[test]
fn initial_state_later_allocation_wins_and_validators_parse() {
    let g = Genesis {
        chain_id: "c".to_string(),
        timestamp: 0,
        allocations: vec![
            GenesisAlloc { address: "a".to_string(), balance: 1 },
            GenesisAlloc { address: "b".to_string(), balance: 2 },
            GenesisAlloc { address: "a".to_string(), balance: 3 },
        ],
        validators: vec![GenesisValidator { address: "07".repeat(32), stake: 9 }],
    };
    assert!(g.validator_set().is_ok());
    let s = g.initial_state();
    assert_eq!(s.accounts.len(), 2);
    assert_eq!(s.accounts.get(&"a".to_string()).unwrap().balance, 3);
    assert_eq!(s.validators.len(), 1);
    assert_eq!(s.validators[0].address, Address([7; 32]));
    assert_eq!(s.validators[0].stake, 9);
}

#[test]
fn invalid_validator_address_is_reported() {
    let mut g = Genesis::testnet();
    g.validators.push(GenesisValidator { address: "not-hex".to_string(), stake: 1 });
    assert!(g.validator_set().is_err());
}

#[test]
fn genesis_block_shape() {
    let g = Genesis::testnet();
    let b = g.genesis_block();
    assert_eq!(b.header.height, 0);
    assert_eq!(b.header.prev_hash, BlockHash::zero());
    assert_eq!(b.header.merkle_root, TxHash([0; 32]));
    assert_eq!(b.header.timestamp, 1_745_000_000);
    assert_eq!(b.header.proposer, Address([0; 32]));
    assert!(b.transactions.is_empty());
    assert!(b.validator_sigs.is_empty());
}

#[test]
fn block_time_is_five_seconds() {
    assert_eq!(BLOCK_TIME_SECS, 5);
}

#[test]
fn proposer_rotates_round_robin() {
    let v = |b: u8| ValidatorInfo { address: Address([b; 32]), stake: 1 };
    let engine = ConsensusEngine::new(state_with(vec![v(1), v(2), v(3)]), HydraXKeypair::generate());
    assert_eq!(engine.proposer_at(0), Some(Address([1; 32])));
    assert_eq!(engine.proposer_at(1), Some(Address([2; 32])));
    assert_eq!(engine.proposer_at(5), Some(Address([3; 32])));
    let solo = ConsensusEngine::new(state_with(vec![]), HydraXKeypair::generate());
    assert_eq!(solo.proposer_at(7), None);
}

#[test]
fn engine_address_is_keypair_address() {
    let kp = HydraXKeypair::generate();
    let expected = kp.address();
    let engine = ConsensusEngine::new(state_with(vec![]), kp);
    assert_eq!(engine.address, expected);
    assert!(engine.mempool.is_empty());
}

#[test]
fn not_proposer_is_refused() {
    let other = ValidatorInfo { address: Address([1; 32]), stake: 1 };
    let mut engine = ConsensusEngine::new(state_with(vec![other]), HydraXKeypair::generate());
    let err = engine.propose_block().unwrap_err();
    assert!(matches!(err, ConsensusError::NotProposer { height: 1 }));
    assert_eq!(err.to_string(), "Not the current proposer for height 1");
}

#[test]
fn submit_rejects_invalid_transaction() {
    let kp = HydraXKeypair::generate();
    let mut tx = signed_tx(&kp, Address([2; 32]), 1, 0);
    tx.nonce = 1;
    let mut engine = ConsensusEngine::new(state_with(vec![]), HydraXKeypair::generate());
    match engine.submit_tx(tx) {
        Err(ConsensusError::InvalidTx(m)) => assert_eq!(
            m,
            "Signature verification failed: HYDRA-X: ML-DSA-87 signature verification failed"
        ),
        other => panic!("unexpected {:?}", other),
    }
    assert!(engine.mempool.is_empty());
}

#[test]
fn single_node_propose_and_commit() {
    let user = HydraXKeypair::generate();
    let mut state = state_with(vec![]);
    state.accounts.insert(user.address().as_hex(), AccountState { balance: 100, nonce: 0 });
    let mut engine = ConsensusEngine::new(state, HydraXKeypair::generate());
    let tx = signed_tx(&user, Address([2; 32]), 40, 0);
    let hash = engine.submit_tx(tx.clone()).unwrap();
    assert_eq!(hash, tx.hash());
    assert_eq!(engine.mempool.len(), 1);

    let block = engine.propose_block_at(1_800_000_000).unwrap();
    assert!(engine.mempool.is_empty());
    assert_eq!(block.header.height, 1);
    assert_eq!(block.header.timestamp, 1_800_000_000);
    assert_eq!(block.header.proposer, engine.address);
    assert_eq!(block.header.merkle_root, Block::compute_merkle_root(&block.transactions));
    assert_eq!(block.transactions.len(), 1);
    assert_eq!(block.validator_sigs.len(), 1);
    assert!(block.validator_sigs[0].signature.verify(&block.header.signing_bytes()).is_ok());

    let header = block.header;
    assert!(!engine.state.block_would_overflow(&block.transactions));
    engine.commit_block(block).unwrap();
    assert_eq!(engine.state.height, 1);
    assert_eq!(engine.state.block_hash, header.hash());
    assert_eq!(engine.state.account(&user.address()).balance, 60);
    assert_eq!(engine.state.account(&Address([2; 32])).balance, 40);
}

#[test]
fn proposal_takes_at_most_500_in_order() {
    let mut engine = ConsensusEngine::new(state_with(vec![]), HydraXKeypair::generate());
    let template = Transaction {
        from: Address([1; 32]),
        to: Address([2; 32]),
        amount: 0,
        nonce: 0,
        timestamp: 0,
        signature: HydraXSignature {
            ml_dsa_sig: vec![],
            slh_dsa_sig: vec![],
            verifying_key: HydraXVerifyingKey { ml_dsa_pk: vec![], slh_dsa_pk: vec![] },
        },
    };
    for i in 0..502u64 {
        let mut tx = template.clone();
        tx.nonce = i;
        engine.mempool.push(tx);
    }
    let block = engine.propose_block_at(0).unwrap();
    assert_eq!(block.transactions.len(), 500);
    assert_eq!(block.transactions[0].nonce, 0);
    assert_eq!(block.transactions[499].nonce, 499);
    assert_eq!(engine.mempool.len(), 2);
    assert_eq!(engine.mempool[0].nonce, 500);
}

#[test]
fn commit_wrong_height() {
    let mut engine = ConsensusEngine::new(state_with(vec![]), HydraXKeypair::generate());
    let header = BlockHeader {
        height: 5,
        prev_hash: BlockHash::zero(),
        merkle_root: TxHash([0; 32]),
        timestamp: 0,
        proposer: engine.address,
    };
    let err = engine.commit_block(Block { header, transactions: vec![], validator_sigs: vec![] }).unwrap_err();
    assert!(matches!(err, ConsensusError::WrongHeight { expected: 1, got: 5 }));
    assert_eq!(err.to_string(), "Invalid block height: expected 1, got 5");
    assert_eq!(engine.state.height, 0);
}

#[test]
fn commit_without_signatures_is_single_node_mode() {
    let mut engine = ConsensusEngine::new(state_with(vec![]), HydraXKeypair::generate());
    let header = BlockHeader {
        height: 1,
        prev_hash: BlockHash::zero(),
        merkle_root: TxHash([0; 32]),
        timestamp: 0,
        proposer: engine.address,
    };
    engine.commit_block(Block { header, transactions: vec![], validator_sigs: vec![] }).unwrap();
    assert_eq!(engine.state.height, 1);
}

#[test]
fn commit_with_foreign_signatures_only_is_refused() {
    let kp = HydraXKeypair::generate();
    let mut engine = ConsensusEngine::new(state_with(vec![]), HydraXKeypair::generate());
    let header = BlockHeader {
        height: 1,
        prev_hash: BlockHash::zero(),
        merkle_root: TxHash([0; 32]),
        timestamp: 0,
        proposer: engine.address,
    };
    let sig = kp.sign(&header.signing_bytes());
    let block = Block {
        header,
        transactions: vec![],
        validator_sigs: vec![ValidatorSig { validator: kp.address(), signature: sig }],
    };
    let err = engine.commit_block(block).unwrap_err();
    match &err {
        ConsensusError::InvalidSig(m) => assert_eq!(m, "proposer signature not found"),
        other => panic!("unexpected {:?}", other),
    }
    assert_eq!(err.to_string(), "Block signature invalid: proposer signature not found");
}

#[test]
fn commit_with_bad_proposer_signature_is_refused() {
    let kp = HydraXKeypair::generate();
    let mut engine = ConsensusEngine::new(state_with(vec![]), HydraXKeypair::generate());
    let header = BlockHeader {
        height: 1,
        prev_hash: BlockHash::zero(),
        merkle_root: TxHash([0; 32]),
        timestamp: 0,
        proposer: kp.address(),
    };
    let sig = kp.sign(b"not the header");
    let block = Block {
        header,
        transactions: vec![],
        validator_sigs: vec![ValidatorSig { validator: kp.address(), signature: sig }],
    };
    // A validator signature that fails over the header fails the block check.
    match engine.commit_block(block) {
        Err(ConsensusError::InvalidTx(m)) => {
            assert_eq!(m, "one or more transactions failed HYDRA-X verification")
        }
        other => panic!("unexpected {:?}", other),
    }
    assert_eq!(engine.state.height, 0);
}

#[test]
fn commit_with_invalid_transaction_is_refused() {
    let kp = HydraXKeypair::generate();
    let mut engine = ConsensusEngine::new(state_with(vec![]), HydraXKeypair::generate());
    let mut tx = signed_tx(&kp, Address([2; 32]), 1, 0);
    tx.amount = 2;
    let header = BlockHeader {
        height: 1,
        prev_hash: BlockHash::zero(),
        merkle_root: TxHash([0; 32]),
        timestamp: 0,
        proposer: engine.address,
    };
    let err = engine
        .commit_block(Block { header, transactions: vec![tx], validator_sigs: vec![] })
        .unwrap_err();
    assert_eq!(
        err.to_string(),
        "Block transactions invalid: one or more transactions failed HYDRA-X verification"
    );
}

#[test]
fn commit_with_unfunded_transaction_reports_balance() {
    let kp = HydraXKeypair::generate();
    let mut engine = ConsensusEngine::new(state_with(vec![]), HydraXKeypair::generate());
    let tx = signed_tx(&kp, Address([2; 32]), 7, 0);
    let header = BlockHeader {
        height: 1,
        prev_hash: BlockHash::zero(),
        merkle_root: TxHash([0; 32]),
        timestamp: 0,
        proposer: engine.address,
    };
    let err = engine
        .commit_block(Block { header, transactions: vec![tx], validator_sigs: vec![] })
        .unwrap_err();
    match &err {
        ConsensusError::InvalidTx(m) => assert_eq!(m, "Insufficient balance: need 7, have 0"),
        other => panic!("unexpected {:?}", other),
    }
    assert_eq!(engine.state.height, 0);
}

#[test]
fn first_proposal_extends_genesis_hash() {
    let g = Genesis::testnet();
    let mut engine = ConsensusEngine::new(g.initial_state(), HydraXKeypair::generate());
    let block = engine.propose_block().unwrap();
    assert_eq!(block.header.height, 1);
    assert_eq!(block.header.prev_hash, g.genesis_block().hash());
    assert!(block.validator_sigs[0].signature.verify(&block.header.signing_bytes()).is_ok());
    engine.commit_block(block).unwrap();
    assert_eq!(engine.state.height, 1);
}

fn three_validators(me: &HydraXKeypair, a: &HydraXKeypair, b: &HydraXKeypair) -> Vec<ValidatorInfo> {
    // Height 1 is proposed by the validator at index 1.
    vec![
        ValidatorInfo { address: a.address(), stake: 1 },
        ValidatorInfo { address: me.address(), stake: 1 },
        ValidatorInfo { address: b.address(), stake: 1 },
    ]
}

#[test]
fn commit_without_two_thirds_is_refused() {
    let me = HydraXKeypair::generate();
    let a = HydraXKeypair::generate();
    let b = HydraXKeypair::generate();
    let mut state = state_with(three_validators(&me, &a, &b));
    state.accounts.insert(me.address().as_hex(), AccountState { balance: 5, nonce: 0 });
    let mut engine = ConsensusEngine::new(state, me);
    let block = engine.propose_block_at(10).unwrap();
    assert_eq!(block.header.proposer, engine.address);
    let before = engine.state.clone();
    let err = engine.commit_block(block).unwrap_err();
    assert!(matches!(err, ConsensusError::InsufficientSigs { need: 2, got: 1 }));
    assert_eq!(err.to_string(), "Insufficient validator signatures: need 2, got 1");
    assert_eq!(engine.state.height, before.height);
    assert_eq!(engine.state.block_hash, before.block_hash);
    assert_eq!(engine.state.account(&engine.address).balance, 5);
}

#[test]
fn commit_with_two_thirds_is_accepted() {
    let me = HydraXKeypair::generate();
    let a = HydraXKeypair::generate();
    let b = HydraXKeypair::generate();
    let mut engine = ConsensusEngine::new(state_with(three_validators(&me, &a, &b)), me);
    let mut block = engine.propose_block_at(10).unwrap();
    let cosig = a.sign(&block.header.signing_bytes());
    block.validator_sigs.push(ValidatorSig { validator: a.address(), signature: cosig });
    // A second signature from the same validator does not count twice.
    let again = engine.keypair.sign(&block.header.signing_bytes());
    let mut doubled = block.clone();
    doubled.validator_sigs.truncate(1);
    doubled.validator_sigs.push(ValidatorSig { validator: engine.address, signature: again });
    let err = engine.commit_block(doubled).unwrap_err();
    assert!(matches!(err, ConsensusError::InsufficientSigs { need: 2, got: 1 }));
    assert_eq!(engine.state.height, 0);
    let header = block.header;
    engine.commit_block(block).unwrap();
    assert_eq!(engine.state.height, 1);
    assert_eq!(engine.state.block_hash, header.hash());
}

#[test]
fn refused_block_leaves_every_account_unchanged() {
    let user = HydraXKeypair::generate();
    let mut state = state_with(vec![]);
    state.accounts.insert(user.address().as_hex(), AccountState { balance: 10, nonce: 0 });
    let mut engine = ConsensusEngine::new(state, HydraXKeypair::generate());
    engine.submit_tx(signed_tx(&user, Address([2; 32]), 6, 0)).unwrap();
    engine.submit_tx(signed_tx(&user, Address([3; 32]), 6, 1)).unwrap();
    let block = engine.propose_block_at(0).unwrap();
    assert_eq!(block.transactions.len(), 2);
    match engine.commit_block(block) {
        Err(ConsensusError::InvalidTx(m)) => assert_eq!(m, "Insufficient balance: need 6, have 4"),
        other => panic!("unexpected {:?}", other),
    }
    assert_eq!(engine.state.height, 0);
    assert_eq!(engine.state.account(&user.address()).balance, 10);
    assert_eq!(engine.state.account(&user.address()).nonce, 0);
    assert_eq!(engine.state.account(&Address([2; 32])).balance, 0);
}

#[test]
fn raw_signing_bytes_match_transaction_payload() {
    let kp = HydraXKeypair::generate();
    let tx = signed_tx(&kp, Address([4; 32]), 123, 9);
    let raw = to_raw_transaction(&tx);
    let expected = Transaction::signing_payload(&tx.from, &tx.to, tx.amount, tx.nonce, tx.timestamp);
    assert_eq!(raw.signing_bytes(), expected);
    assert_eq!(raw.signing_bytes().len(), 112);
}

#[test]
fn consensus_error_messages() {
    assert_eq!(
        ConsensusError::InsufficientSigs { need: 3, got: 1 }.to_string(),
        "Insufficient validator signatures: need 3, got 1"
    );
    assert_eq!(ConsensusError::InvalidSig("x".to_string()).to_string(), "Block signature invalid: x");
}

#[test]
fn raw_transaction_layout() {
    let tx = Transaction {
        from: Address([1; 32]),
        to: Address([2; 32]),
        amount: 77,
        nonce: 3,
        timestamp: 0,
        signature: HydraXSignature {
            ml_dsa_sig: vec![9],
            slh_dsa_sig: vec![8],
            verifying_key: HydraXVerifyingKey { ml_dsa_pk: vec![5, 5], slh_dsa_pk: vec![6] },
        },
    };
    let raw = to_raw_transaction(&tx);
    assert_eq!(raw.nonce, 3);
    assert_eq!(raw.sender, [1; 32]);
    assert_eq!(raw.recipient, [2; 32]);
    assert_eq!(raw.sender_ml_dsa_pk, vec![5, 5]);
    assert_eq!(raw.sender_slh_dsa_pk, vec![6]);
    assert_eq!(raw.value, 77u128);
    assert_eq!(raw.fee_per_gas, 0);
    assert_eq!(raw.gas_limit, 21_000);
    assert!(raw.data.is_empty());
    assert_eq!(hx_hash_to_qtrc([4; 32]), TxHash([4; 32]));
}

#[test]
fn height_keys_roundtrip() {
    let key = height_key(0x0102030405060708);
    assert_eq!(key, 0x0102030405060708u64.to_le_bytes().to_vec());
    assert_eq!(height_from_key(&key), 0x0102030405060708);
    assert_eq!(height_from_key(&height_key(0)), 0);
}

#[test]
fn producer_slot_commits_own_block() {
    let user = HydraXKeypair::generate();
    let mut state = state_with(vec![]);
    state.accounts.insert(user.address().as_hex(), AccountState { balance: 9, nonce: 0 });
    let mut engine = ConsensusEngine::new(state, HydraXKeypair::generate());
    engine.submit_tx(signed_tx(&user, Address([2; 32]), 4, 0)).unwrap();
    match engine.produce_block_at(77) {
        BlockProduction::Committed(block) => {
            assert_eq!(block.header.timestamp, 77);
            assert_eq!(engine.state.block_hash, block.header.hash());
        }
        other => panic!("unexpected {:?}", other),
    }
    assert_eq!(engine.state.height, 1);
    assert!(engine.mempool.is_empty());
    assert_eq!(engine.state.account(&Address([2; 32])).balance, 4);
    assert!(matches!(engine.produce_block(), BlockProduction::Committed(_)));
    assert_eq!(engine.state.height, 2);
}

#[test]
fn producer_slot_waits_for_other_proposer() {
    let other = ValidatorInfo { address: Address([1; 32]), stake: 1 };
    let mut engine = ConsensusEngine::new(state_with(vec![other]), HydraXKeypair::generate());
    assert!(matches!(engine.produce_block_at(0), BlockProduction::NotProposer { height: 1 }));
    assert_eq!(engine.state.height, 0);
}

#[test]
fn producer_slot_reports_refused_commit() {
    let user = HydraXKeypair::generate();
    let mut engine = ConsensusEngine::new(state_with(vec![]), HydraXKeypair::generate());
    engine.submit_tx(signed_tx(&user, Address([2; 32]), 4, 0)).unwrap();
    match engine.produce_block_at(0) {
        BlockProduction::Rejected(block, ConsensusError::InvalidTx(m)) => {
            assert_eq!(m, "Insufficient balance: need 4, have 0");
            assert_eq!(block.transactions.len(), 1);
        }
        other => panic!("unexpected {:?}", other),
    }
    assert_eq!(engine.state.height, 0);
    assert!(engine.mempool.is_empty());
}

#[test]
fn producer_slot_stops_before_overflow() {
    let user = HydraXKeypair::generate();
    let mut state = state_with(vec![]);
    state.accounts.insert(user.address().as_hex(), AccountState { balance: 1, nonce: 0 });
    state.accounts.insert(Address([2; 32]).as_hex(), AccountState { balance: u64::MAX, nonce: 0 });
    let mut engine = ConsensusEngine::new(state, HydraXKeypair::generate());
    engine.submit_tx(signed_tx(&user, Address([2; 32]), 1, 0)).unwrap();
    assert!(matches!(engine.produce_block_at(0), BlockProduction::WouldOverflow(_)));
    assert_eq!(engine.state.height, 0);
    assert_eq!(engine.state.account(&user.address()).balance, 1);
}

#[test]
fn proposer_signature_under_another_key_is_refused() {
    let intruder = HydraXKeypair::generate();
    let mut engine = ConsensusEngine::new(state_with(vec![]), HydraXKeypair::generate());
    let header = BlockHeader {
        height: 1,
        prev_hash: BlockHash::zero(),
        merkle_root: TxHash([0; 32]),
        timestamp: 0,
        proposer: engine.address,
    };
    let sig = intruder.sign(&header.signing_bytes());
    let block = Block {
        header,
        transactions: vec![],
        validator_sigs: vec![ValidatorSig { validator: engine.address, signature: sig }],
    };
    let err = engine.commit_block(block).unwrap_err();
    match &err {
        ConsensusError::InvalidSig(m) => assert_eq!(m, "signer address does not match proposer"),
        other => panic!("unexpected {:?}", other),
    }
    assert_eq!(engine.state.height, 0);
}

#[test]
fn quorum_counts_only_each_validators_own_key() {
    let me = HydraXKeypair::generate();
    let a = HydraXKeypair::generate();
    let b = HydraXKeypair::generate();
    let intruder = HydraXKeypair::generate();
    let mut engine = ConsensusEngine::new(state_with(three_validators(&me, &a, &b)), me);
    let mut block = engine.propose_block_at(3).unwrap();
    let forged = intruder.sign(&block.header.signing_bytes());
    block.validator_sigs.push(ValidatorSig { validator: a.address(), signature: forged });
    let err = engine.commit_block(block).unwrap_err();
    assert!(matches!(err, ConsensusError::InsufficientSigs { need: 2, got: 1 }));
    assert_eq!(engine.state.height, 0);
}
