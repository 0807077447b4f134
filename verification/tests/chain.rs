use qtrc::block::{Block, BlockHash, BlockHeader, ValidatorSig};
use qtrc::crypto::{Address, HydraXKeypair, HydraXSignature, HydraXVerifyingKey};
use qtrc::state::{AccountState, AccountTable, ChainState};
use qtrc::tx::{Transaction, TxError, TxHash};
use sha3::Digest;

fn dummy_signature() -> HydraXSignature {
    HydraXSignature {
        ml_dsa_sig: vec![1, 2],
        slh_dsa_sig: vec![],
        verifying_key: HydraXVerifyingKey { ml_dsa_pk: vec![255], slh_dsa_pk: vec![0, 10] },
    }
}

fn unsigned_tx(from: Address, to: Address, amount: u64, nonce: u64) -> Transaction {
    Transaction { from, to, amount, nonce, timestamp: 0, signature: dummy_signature() }
}

fn signed_tx(kp: &HydraXKeypair, to: Address, amount: u64, nonce: u64, ts: i64) -> Transaction {
    let from = kp.address();
    let payload = Transaction::signing_payload(&from, &to, amount, nonce, ts);
    let signature = kp.sign(&payload);
    Transaction { from, to, amount, nonce, timestamp: ts, signature }
}

fn empty_state() -> ChainState {
    ChainState { height: 0, block_hash: BlockHash::zero(), accounts: AccountTable::new(), validators: vec![] }
}

fn fund(state: &mut ChainState, addr: &Address, balance: u64, nonce: u64) {
    state.accounts.insert(addr.as_hex(), AccountState { balance, nonce });
}

#[test]
fn signing_payload_layout() {
    let from = Address([1u8; 32]);
    let to = Address([2u8; 32]);
    let p = Transaction::signing_payload(&from, &to, 0x0102, 7, -1);
    assert_eq!(p.len(), 112);
    assert_eq!(&p[..8], &7u64.to_le_bytes());
    assert_eq!(&p[8..40], &[1u8; 32]);
    assert_eq!(&p[40..72], &[2u8; 32]);
    assert_eq!(&p[72..88], &0x0102u128.to_le_bytes());
    assert_eq!(&p[88..96], &0u64.to_le_bytes());
    assert_eq!(&p[96..104], &21_000u64.to_le_bytes());
    assert_eq!(&p[104..112], &0u64.to_le_bytes());
    // The timestamp is not part of what is signed.
    assert_eq!(p, Transaction::signing_payload(&from, &to, 0x0102, 7, 12345));
}

#[test]
fn transaction_canonical_json_and_hash() {
    let tx = Transaction {
        from: Address([1u8; 32]),
        to: Address([2u8; 32]),
        amount: 5,
        nonce: 0,
        timestamp: -3,
        signature: dummy_signature(),
    };
    let expected = format!(
        "{{\"from\":\"{}\",\"to\":\"{}\",\"amount\":5,\"nonce\":0,\"timestamp\":-3,\"signature\":{{\"ml_dsa_sig\":[1,2],\"slh_dsa_sig\":[],\"verifying_key\":{{\"ml_dsa_pk\":[255],\"slh_dsa_pk\":[0,10]}}}}}}",
        "01".repeat(32),
        "02".repeat(32)
    );
    assert_eq!(String::from_utf8(tx.canonical_bytes()).unwrap(), expected);
    let digest: [u8; 32] = sha3::Sha3_256::digest(expected.as_bytes()).into();
    assert_eq!(tx.hash().0, digest);
    assert_eq!(tx.hash().to_string(), hex::encode(digest));
}

#[test]
fn header_canonical_json_and_hash() {
    let header = BlockHeader {
        height: 12,
        prev_hash: BlockHash([0xaa; 32]),
        merkle_root: TxHash([0x0b; 32]),
        timestamp: 1_745_000_000,
        proposer: Address([0u8; 32]),
    };
    let expected = format!(
        "{{\"height\":12,\"prev_hash\":\"{}\",\"merkle_root\":\"{}\",\"timestamp\":1745000000,\"proposer\":\"{}\"}}",
        "aa".repeat(32),
        "0b".repeat(32),
        "00".repeat(32)
    );
    assert_eq!(String::from_utf8(header.signing_bytes()).unwrap(), expected);
    let digest: [u8; 32] = sha3::Sha3_256::digest(expected.as_bytes()).into();
    assert_eq!(header.hash().0, digest);
    let block = Block { header, transactions: vec![], validator_sigs: vec![] };
    assert_eq!(block.hash().0, digest);
}

#[test]
fn extreme_numbers_in_header_json() {
    let header = BlockHeader {
        height: u64::MAX,
        prev_hash: BlockHash::zero(),
        merkle_root: TxHash([0; 32]),
        timestamp: i64::MIN,
        proposer: Address([0u8; 32]),
    };
    let text = String::from_utf8(header.signing_bytes()).unwrap();
    assert!(text.starts_with("{\"height\":18446744073709551615,"));
    assert!(text.contains("\"timestamp\":-9223372036854775808,"));
}

#[test]
fn merkle_root_of_nothing_is_zero() {
    assert_eq!(Block::compute_merkle_root(&[]), TxHash([0u8; 32]));
}

#[test]
fn merkle_root_hashes_tx_hashes_in_order() {
    let a = unsigned_tx(Address([1; 32]), Address([2; 32]), 1, 0);
    let b = unsigned_tx(Address([3; 32]), Address([4; 32]), 2, 0);
    let mut hasher = sha3::Sha3_256::new();
    hasher.update(a.hash().0);
    hasher.update(b.hash().0);
    let expected: [u8; 32] = hasher.finalize().into();
    let txs = vec![a.clone(), b.clone()];
    assert_eq!(Block::compute_merkle_root(&txs).0, expected);
    let swapped = vec![b, a];
    assert_ne!(Block::compute_merkle_root(&swapped).0, expected);
}

#[test]
fn block_hash_zero_is_zero() {
    assert_eq!(BlockHash::zero().0, [0u8; 32]);
    assert_eq!(BlockHash::zero().to_string(), "00".repeat(32));
}

#[test]
fn signed_transaction_verifies() {
    let kp = HydraXKeypair::generate();
    let tx = signed_tx(&kp, Address([9; 32]), 10, 0, 1_700_000_000);
    assert!(tx.verify().is_ok());
}

#[test]
fn transaction_with_changed_amount_fails() {
    let kp = HydraXKeypair::generate();
    let mut tx = signed_tx(&kp, Address([9; 32]), 10, 0, 5);
    tx.amount = 11;
    match tx.verify() {
        Err(TxError::SignatureInvalid(m)) => {
            assert_eq!(m, "HYDRA-X: ML-DSA-87 signature verification failed")
        }
        other => panic!("unexpected {:?}", other),
    }
    assert_eq!(
        tx.verify().unwrap_err().to_string(),
        "Signature verification failed: HYDRA-X: ML-DSA-87 signature verification failed"
    );
}

#[test]
fn transaction_from_other_address_is_signer_mismatch() {
    let kp = HydraXKeypair::generate();
    let to = Address([9; 32]);
    let from = Address([7; 32]);
    let payload = Transaction::signing_payload(&from, &to, 3, 0, 0);
    let signature = kp.sign(&payload);
    let tx = Transaction { from, to, amount: 3, nonce: 0, timestamp: 0, signature };
    assert!(matches!(tx.verify(), Err(TxError::SignerMismatch)));
    assert_eq!(TxError::SignerMismatch.to_string(), "Signer address does not match `from` field");
}

#[test]
fn block_verify_transactions() {
    let kp = HydraXKeypair::generate();
    let good = signed_tx(&kp, Address([9; 32]), 1, 0, 0);
    let bad = unsigned_tx(kp.address(), Address([9; 32]), 1, 1);
    let header = BlockHeader {
        height: 1,
        prev_hash: BlockHash::zero(),
        merkle_root: TxHash([0; 32]),
        timestamp: 0,
        proposer: kp.address(),
    };
    let ok_block = Block { header, transactions: vec![good.clone()], validator_sigs: vec![] };
    assert!(ok_block.verify_transactions());
    let bad_block = Block { header, transactions: vec![good, bad], validator_sigs: vec![] };
    assert!(!bad_block.verify_transactions());
    let empty = Block { header, transactions: vec![], validator_sigs: Vec::<ValidatorSig>::new() };
    assert!(empty.verify_transactions());

    // Validator signatures are checked over the header bytes too.
    let on_header = kp.sign(&header.signing_bytes());
    let signed = Block {
        header,
        transactions: vec![],
        validator_sigs: vec![ValidatorSig { validator: kp.address(), signature: on_header }],
    };
    assert!(signed.verify_transactions());
    let off_header = kp.sign(b"something else");
    let mis_signed = Block {
        header,
        transactions: vec![],
        validator_sigs: vec![ValidatorSig { validator: kp.address(), signature: off_header }],
    };
    assert!(!mis_signed.verify_transactions());
}

#[test]
fn account_of_unknown_address_is_fresh() {
    let state = empty_state();
    let a = state.account(&Address([5; 32]));
    assert_eq!((a.balance, a.nonce), (0, 0));
}

#[test]
fn apply_tx_transfers_and_advances_nonce() {
    let alice = Address([1; 32]);
    let bob = Address([2; 32]);
    let mut state = empty_state();
    fund(&mut state, &alice, 100, 0);
    assert!(state.apply_tx(&unsigned_tx(alice, bob, 30, 0)).is_ok());
    let a = state.account(&alice);
    let b = state.account(&bob);
    assert_eq!((a.balance, a.nonce), (70, 1));
    assert_eq!((b.balance, b.nonce), (30, 0));
}

#[test]
fn apply_tx_replay_is_refused() {
    let alice = Address([1; 32]);
    let bob = Address([2; 32]);
    let mut state = empty_state();
    fund(&mut state, &alice, 100, 0);
    let tx = unsigned_tx(alice, bob, 30, 0);
    state.apply_tx(&tx).unwrap();
    match state.apply_tx(&tx) {
        Err(TxError::InvalidNonce { expected, got }) => assert_eq!((expected, got), (1, 0)),
        other => panic!("unexpected {:?}", other),
    }
    assert_eq!(state.account(&alice).balance, 70);
    assert_eq!(state.account(&bob).balance, 30);
}

#[test]
fn apply_tx_insufficient_balance() {
    let alice = Address([1; 32]);
    let bob = Address([2; 32]);
    let mut state = empty_state();
    fund(&mut state, &alice, 10, 0);
    let err = state.apply_tx(&unsigned_tx(alice, bob, 11, 0)).unwrap_err();
    assert!(matches!(err, TxError::InsufficientBalance { need: 11, have: 10 }));
    assert_eq!(err.to_string(), "Insufficient balance: need 11, have 10");
    assert_eq!(state.account(&alice).balance, 10);
    assert_eq!(state.account(&alice).nonce, 0);
}

#[test]
fn refused_transaction_still_opens_sender_account() {
    let alice = Address([1; 32]);
    let bob = Address([2; 32]);
    let mut state = empty_state();
    assert_eq!(state.accounts.len(), 0);
    let err = state.apply_tx(&unsigned_tx(alice, bob, 0, 4)).unwrap_err();
    assert_eq!(err.to_string(), "Invalid nonce: expected 0, got 4");
    assert_eq!(state.accounts.len(), 1);
    let entry = state.accounts.get(&alice.as_hex()).unwrap();
    assert_eq!((entry.balance, entry.nonce), (0, 0));
}

#[test]
fn self_transfer_only_advances_nonce() {
    let alice = Address([1; 32]);
    let mut state = empty_state();
    fund(&mut state, &alice, 50, 2);
    state.apply_tx(&unsigned_tx(alice, alice, 50, 2)).unwrap();
    let a = state.account(&alice);
    assert_eq!((a.balance, a.nonce), (50, 3));
}

#[test]
fn apply_block_stops_at_first_refusal_and_keeps_earlier_effects() {
    let alice = Address([1; 32]);
    let bob = Address([2; 32]);
    let mut state = empty_state();
    fund(&mut state, &alice, 100, 0);
    let header = BlockHeader {
        height: 1,
        prev_hash: BlockHash::zero(),
        merkle_root: TxHash([0; 32]),
        timestamp: 0,
        proposer: alice,
    };
    let block = Block {
        header,
        transactions: vec![
            unsigned_tx(alice, bob, 10, 0),
            unsigned_tx(alice, bob, 10, 5),
            unsigned_tx(alice, bob, 10, 1),
        ],
        validator_sigs: vec![],
    };
    assert!(matches!(state.apply_block(&block), Err(TxError::InvalidNonce { expected: 1, got: 5 })));
    assert_eq!(state.account(&alice).balance, 90);
    assert_eq!(state.account(&bob).balance, 10);
    assert_eq!(state.height, 0);
    assert_eq!(state.block_hash, BlockHash::zero());
}

#[test]
fn apply_block_success_sets_height_and_hash() {
    let alice = Address([1; 32]);
    let bob = Address([2; 32]);
    let mut state = empty_state();
    fund(&mut state, &alice, 100, 0);
    let header = BlockHeader {
        height: 1,
        prev_hash: BlockHash::zero(),
        merkle_root: TxHash([0; 32]),
        timestamp: 0,
        proposer: alice,
    };
    let block = Block {
        header,
        transactions: vec![unsigned_tx(alice, bob, 10, 0), unsigned_tx(alice, bob, 5, 1)],
        validator_sigs: vec![],
    };
    assert!(!state.block_would_overflow(&block.transactions));
    state.apply_block(&block).unwrap();
    assert_eq!(state.height, 1);
    assert_eq!(state.block_hash, header.hash());
    assert_eq!(state.account(&alice).balance, 85);
    assert_eq!(state.account(&alice).nonce, 2);
    assert_eq!(state.account(&bob).balance, 15);
}

#[test]
fn overflow_detection() {
    let alice = Address([1; 32]);
    let bob = Address([2; 32]);
    let mut state = empty_state();
    fund(&mut state, &alice, 10, 0);
    fund(&mut state, &bob, u64::MAX - 5, 0);
    let ok = vec![unsigned_tx(alice, bob, 5, 0)];
    assert!(!state.block_would_overflow(&ok));
    let too_much = vec![unsigned_tx(alice, bob, 5, 0), unsigned_tx(alice, bob, 1, 1)];
    assert!(state.block_would_overflow(&too_much));
    // A refusal before the overflowing transfer ends the block first.
    let refused_first = vec![unsigned_tx(alice, bob, 5, 9), unsigned_tx(alice, bob, 6, 0)];
    assert!(!state.block_would_overflow(&refused_first));
    let mut maxed = empty_state();
    fund(&mut maxed, &alice, 10, u64::MAX);
    assert!(maxed.block_would_overflow(&vec![unsigned_tx(alice, bob, 1, u64::MAX)]));
    assert!(!maxed.block_would_overflow(&vec![unsigned_tx(alice, bob, 1, 3)]));
}

#[test]
fn account_table_insert_replaces() {
    let mut table = AccountTable::new();
    table.insert("k".to_string(), AccountState { balance: 1, nonce: 1 });
    table.insert("k".to_string(), AccountState { balance: 2, nonce: 3 });
    table.insert("j".to_string(), AccountState { balance: 4, nonce: 0 });
    assert_eq!(table.len(), 2);
    let k = table.get(&"k".to_string()).unwrap();
    assert_eq!((k.balance, k.nonce), (2, 3));
    assert!(table.get(&"x".to_string()).is_none());
    let copy = table.clone();
    assert_eq!(copy.entries().len(), 2);
    assert_eq!(copy.get(&"j".to_string()).unwrap().balance, 4);
}

#[test]
fn chain_state_and_block_clone_keep_contents() {
    let alice = Address([1; 32]);
    let mut state = empty_state();
    fund(&mut state, &alice, 9, 1);
    let copy = state.clone();
    assert_eq!(copy.account(&alice).balance, 9);
    assert_eq!(copy.account(&alice).nonce, 1);
    let header = BlockHeader {
        height: 3,
        prev_hash: BlockHash([1; 32]),
        merkle_root: TxHash([2; 32]),
        timestamp: 4,
        proposer: alice,
    };
    let block = Block {
        header,
        transactions: vec![unsigned_tx(alice, alice, 1, 1)],
        validator_sigs: vec![ValidatorSig { validator: alice, signature: dummy_signature() }],
    };
    let b2 = block.clone();
    assert_eq!(b2.hash(), block.hash());
    assert_eq!(b2.transactions[0].hash(), block.transactions[0].hash());
    assert_eq!(b2.validator_sigs[0].validator, alice);
}

fn total(state: &ChainState) -> u128 {
    state.accounts.entries().iter().map(|(_, a)| a.balance as u128).sum()
}

#[test]
fn supply_is_conserved_by_applied_and_refused_transfers() {
    let alice = Address([1; 32]);
    let bob = Address([2; 32]);
    let carol = Address([3; 32]);
    let mut state = empty_state();
    fund(&mut state, &alice, 100, 0);
    fund(&mut state, &bob, 7, 0);
    let before = total(&state);
    state.apply_tx(&unsigned_tx(alice, carol, 60, 0)).unwrap();
    assert_eq!(total(&state), before);
    assert!(state.apply_tx(&unsigned_tx(bob, alice, 8, 0)).is_err());
    assert_eq!(total(&state), before);
    assert!(state.apply_tx(&unsigned_tx(Address([4; 32]), alice, 1, 0)).is_err());
    assert_eq!(total(&state), before);
    assert_eq!(state.accounts.len(), 4);
}

#[test]
fn changed_sender_is_refused() {
    let kp = HydraXKeypair::generate();
    let tx = signed_tx(&kp, Address([9; 32]), 10, 0, 0);
    assert!(tx.verify().is_ok());
    let mut altered = tx.clone();
    altered.from = Address([8; 32]);
    assert!(altered.verify().is_err());
}
