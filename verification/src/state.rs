//! Chain state — accounts and validator set — and the transfer rules that
//! move it from one block to the next.

use vstd::prelude::*;

use crate::block::{header_hash, Block, BlockHash};
use crate::crypto::Address;
use crate::encoding::hex_lower_chars;
use crate::tx::{Transaction, TxError};

verus! {

/// Per-account state.
#[derive(Clone, Copy, Debug)]
pub struct AccountState {
    /// Balance in micro-QTR
    pub balance: u64,
    /// Next expected nonce
    pub nonce: u64,
}

/// The state of an account that has never been touched.
pub open spec fn fresh_account() -> AccountState {
    AccountState { balance: 0, nonce: 0 }
}

impl Default for AccountState {
    fn default() -> (a: Self)
        ensures
            a == fresh_account(),
    {
        AccountState { balance: 0, nonce: 0 }
    }
}

/// Registered validator.
#[derive(Clone, Copy, Debug)]
pub struct ValidatorInfo {
    pub address: Address,
    pub stake: u64,
}

// ---------------------------------------------------------------------------
// Account table: accounts by key, each key at most once
// ---------------------------------------------------------------------------

/// The map that a list of (key, account) entries denotes; a later entry for
/// a key overrides an earlier one.
pub open spec fn entries_map(entries: Seq<(String, AccountState)>) -> Map<Seq<char>, AccountState>
    decreases entries.len(),
{
    if entries.len() == 0 {
        Map::empty()
    } else {
        entries_map(entries.drop_last()).insert(entries.last().0@, entries.last().1)
    }
}

/// No key occurs in two entries.
pub open spec fn keys_distinct(entries: Seq<(String, AccountState)>) -> bool {
    forall|i: int, j: int|
        0 <= i < j < entries.len() ==> (#[trigger] entries[i]).0@ != (#[trigger] entries[j]).0@
}

proof fn lemma_entries_map_domain(entries: Seq<(String, AccountState)>, key: Seq<char>)
    ensures
        entries_map(entries).contains_key(key) <==> exists|i: int|
            0 <= i < entries.len() && (#[trigger] entries[i]).0@ == key,
    decreases entries.len(),
{
    if entries.len() > 0 {
        let prefix = entries.drop_last();
        lemma_entries_map_domain(prefix, key);
        if entries_map(prefix).contains_key(key) {
            let i = choose|i: int| 0 <= i < prefix.len() && (#[trigger] prefix[i]).0@ == key;
            assert(entries[i] == prefix[i]);
        }
        if exists|i: int| 0 <= i < entries.len() && (#[trigger] entries[i]).0@ == key {
            let i = choose|i: int| 0 <= i < entries.len() && (#[trigger] entries[i]).0@ == key;
            if i < entries.len() - 1 {
                assert(prefix[i] == entries[i]);
            }
        }
    }
}

proof fn lemma_entries_map_value(entries: Seq<(String, AccountState)>, i: int)
    requires
        keys_distinct(entries),
        0 <= i < entries.len(),
    ensures
        entries_map(entries).contains_key(entries[i].0@),
        entries_map(entries)[entries[i].0@] == entries[i].1,
    decreases entries.len(),
{
    let prefix = entries.drop_last();
    if i < entries.len() - 1 {
        assert(prefix[i] == entries[i]);
        assert(keys_distinct(prefix)) by {
            assert forall|a: int, b: int| 0 <= a < b < prefix.len() implies (#[trigger] prefix[a]).0@
                != (#[trigger] prefix[b]).0@ by {
                assert(prefix[a] == entries[a] && prefix[b] == entries[b]);
            }
        }
        lemma_entries_map_value(prefix, i);
        assert(entries[i].0@ != entries[entries.len() - 1].0@);
    }
}

proof fn lemma_entries_map_update(
    entries: Seq<(String, AccountState)>,
    i: int,
    key: String,
    value: AccountState,
)
    requires
        keys_distinct(entries),
        0 <= i < entries.len(),
        key@ == entries[i].0@,
    ensures
        entries_map(entries.update(i, (key, value))) == entries_map(entries).insert(key@, value),
    decreases entries.len(),
{
    let updated = entries.update(i, (key, value));
    let prefix = entries.drop_last();
    if i == entries.len() - 1 {
        assert(updated.drop_last() =~= prefix);
        assert(entries_map(updated) =~= entries_map(entries).insert(entries[i].0@, value));
    } else {
        assert(keys_distinct(prefix)) by {
            assert forall|a: int, b: int| 0 <= a < b < prefix.len() implies (#[trigger] prefix[a]).0@
                != (#[trigger] prefix[b]).0@ by {
                assert(prefix[a] == entries[a] && prefix[b] == entries[b]);
            }
        }
        assert(prefix[i] == entries[i]);
        lemma_entries_map_update(prefix, i, key, value);
        assert(updated.drop_last() =~= prefix.update(i, (key, value)));
        assert(entries[i].0@ != entries.last().0@);
        assert(entries_map(updated) =~= entries_map(entries).insert(entries[i].0@, value));
    }
}

/// Accounts by key; every key occurs at most once.
#[derive(Debug)]
pub struct AccountTable {
    entries: Vec<(String, AccountState)>,
}

impl View for AccountTable {
    type V = Map<Seq<char>, AccountState>;

    closed spec fn view(&self) -> Map<Seq<char>, AccountState> {
        entries_map(self.entries@)
    }
}

impl AccountTable {
    #[verifier::type_invariant]
    closed spec fn well_formed(self) -> bool {
        keys_distinct(self.entries@)
    }

    /// An empty table.
    pub fn new() -> (table: Self)
        ensures
            table@ == Map::<Seq<char>, AccountState>::empty(),
    {
        AccountTable { entries: Vec::new() }
    }

    /// The number of accounts.
    pub fn len(&self) -> (n: usize)
        ensures
            n == self@.dom().len(),
    {
        proof {
            use_type_invariant(self);
            self.lemma_domain_len(self.entries@.len() as int);
            assert(self.entries@.subrange(0, self.entries@.len() as int) =~= self.entries@);
        }
        self.entries.len()
    }

    proof fn lemma_domain_len(&self, k: int)
        requires
            keys_distinct(self.entries@),
            0 <= k <= self.entries@.len(),
        ensures
            entries_map(self.entries@.subrange(0, k)).dom().len() == k,
            entries_map(self.entries@.subrange(0, k)).dom().finite(),
        decreases k,
    {
        let s = self.entries@.subrange(0, k);
        if k > 0 {
            self.lemma_domain_len(k - 1);
            assert(s.drop_last() =~= self.entries@.subrange(0, k - 1));
            let key = s.last().0@;
            lemma_entries_map_domain(s.drop_last(), key);
            if entries_map(s.drop_last()).contains_key(key) {
                let i = choose|i: int| 0 <= i < s.drop_last().len() && (#[trigger] s.drop_last()[i]).0@ == key;
                assert(self.entries@[i] == s.drop_last()[i]);
                assert(self.entries@[k - 1] == s.last());
            }
        } else {
            assert(entries_map(s) =~= Map::<Seq<char>, AccountState>::empty());
        }
        if k == self.entries@.len() {
            assert(s =~= self.entries@);
        }
    }

    proof fn lemma_view_finite(&self)
        requires
            keys_distinct(self.entries@),
        ensures
            self@.dom().finite(),
    {
        self.lemma_domain_len(self.entries@.len() as int);
        assert(self.entries@.subrange(0, self.entries@.len() as int) =~= self.entries@);
    }

    /// The index of the entry for `key`, if there is one.
    fn find(&self, key: &String) -> (idx: Option<usize>)
        ensures
            match idx {
                Some(i) => i < self.entries@.len() && self.entries@[i as int].0@ == key@,
                None => forall|i: int|
                    0 <= i < self.entries@.len() ==> (#[trigger] self.entries@[i]).0@ != key@,
            },
    {
        let mut i: usize = 0;
        while i < self.entries.len()
            invariant
                i <= self.entries@.len(),
                forall|j: int| 0 <= j < i ==> (#[trigger] self.entries@[j]).0@ != key@,
            decreases self.entries@.len() - i,
        {
            if self.entries[i].0 == *key {
                return Some(i);
            }
            i = i + 1;
        }
        None
    }

    /// The account stored under `key`, if any.
    pub fn get(&self, key: &String) -> (account: Option<AccountState>)
        ensures
            account == (if self@.contains_key(key@) {
                Some(self@[key@])
            } else {
                None
            }),
    {
        proof {
            use_type_invariant(self);
        }
        match self.find(key) {
            Some(i) => {
                proof {
                    lemma_entries_map_value(self.entries@, i as int);
                }
                Some(self.entries[i].1)
            },
            None => {
                proof {
                    lemma_entries_map_domain(self.entries@, key@);
                }
                None
            },
        }
    }

    /// Stores `account` under `key`, replacing any account stored there.
    pub fn insert(&mut self, key: String, account: AccountState)
        ensures
            final(self)@ == old(self)@.insert(key@, account),
    {
        proof {
            use_type_invariant(&*self);
        }
        let found = self.find(&key);
        let mut entries: Vec<(String, AccountState)> = Vec::new();
        std::mem::swap(&mut entries, &mut self.entries);
        let ghost prev = entries@;
        assert(prev == old(self).entries@);
        match found {
            Some(i) => {
                let ghost new_entry = (key, account);
                proof {
                    lemma_entries_map_update(prev, i as int, key, account);
                }
                entries[i] = (key, account);
                proof {
                    assert(entries@ =~= prev.update(i as int, new_entry));
                    assert forall|a: int, b: int|
                        0 <= a < b < entries@.len() implies (#[trigger] entries@[a]).0@
                        != (#[trigger] entries@[b]).0@ by {
                        assert(prev[a].0@ != prev[b].0@);
                    }
                }
            },
            None => {
                entries.push((key, account));
                proof {
                    assert(entries@.drop_last() =~= prev);
                    assert forall|a: int, b: int|
                        0 <= a < b < entries@.len() implies (#[trigger] entries@[a]).0@
                        != (#[trigger] entries@[b]).0@ by {
                        if b < prev.len() {
                            assert(prev[a].0@ != prev[b].0@);
                        } else {
                            assert(entries@[a] == prev[a]);
                        }
                    }
                }
            },
        }
        self.entries = entries;
    }

    /// The entries of the table, each key once.
    pub fn entries(&self) -> (entries: &[(String, AccountState)])
        ensures
            keys_distinct(entries@),
            entries_map(entries@) == self@,
    {
        proof {
            use_type_invariant(self);
        }
        self.entries.as_slice()
    }
}

impl Clone for AccountTable {
    fn clone(&self) -> (copy: Self)
        ensures
            copy@ == self@,
    {
        proof {
            use_type_invariant(self);
        }
        let mut entries: Vec<(String, AccountState)> = Vec::new();
        let mut i: usize = 0;
        while i < self.entries.len()
            invariant
                i <= self.entries@.len(),
                keys_distinct(self.entries@),
                entries@.len() == i,
                forall|j: int|
                    0 <= j < i ==> (#[trigger] entries@[j]).0@ == self.entries@[j].0@
                        && entries@[j].1 == self.entries@[j].1,
            decreases self.entries@.len() - i,
        {
            let key = self.entries[i].0.clone();
            entries.push((key, self.entries[i].1));
            i = i + 1;
        }
        proof {
            lemma_entries_map_same(entries@, self.entries@);
        }
        AccountTable { entries }
    }
}

proof fn lemma_entries_map_same(a: Seq<(String, AccountState)>, b: Seq<(String, AccountState)>)
    requires
        a.len() == b.len(),
        forall|j: int| 0 <= j < a.len() ==> (#[trigger] a[j]).0@ == b[j].0@ && a[j].1 == b[j].1,
    ensures
        entries_map(a) == entries_map(b),
        keys_distinct(b) ==> keys_distinct(a),
    decreases a.len(),
{
    if a.len() > 0 {
        lemma_entries_map_same(a.drop_last(), b.drop_last());
        assert(a.last() == a[a.len() - 1]);
    }
    if keys_distinct(b) {
        assert forall|i: int, j: int| 0 <= i < j < a.len() implies (#[trigger] a[i]).0@ != (
        #[trigger] a[j]).0@ by {
            assert(b[i].0@ != b[j].0@);
        }
    }
}

// ---------------------------------------------------------------------------
// Transfer rules over the account map
// ---------------------------------------------------------------------------

/// The key under which an address's account is kept: its lowercase hex.
pub open spec fn address_key(addr: Address) -> Seq<char> {
    hex_lower_chars(addr.0@)
}

/// The account under `key`: the stored one, or a fresh one.
pub open spec fn account_of(accounts: Map<Seq<char>, AccountState>, key: Seq<char>) -> AccountState {
    if accounts.contains_key(key) {
        accounts[key]
    } else {
        fresh_account()
    }
}

/// The map with an explicit fresh account under `key` if it had none.
pub open spec fn touch(accounts: Map<Seq<char>, AccountState>, key: Seq<char>) -> Map<
    Seq<char>,
    AccountState,
> {
    if accounts.contains_key(key) {
        accounts
    } else {
        accounts.insert(key, fresh_account())
    }
}

/// The accounts after the sender's nonce and balance checks have passed and
/// the sender has been debited.
pub open spec fn debited(accounts: Map<Seq<char>, AccountState>, tx: Transaction) -> Map<
    Seq<char>,
    AccountState,
> {
    let fk = address_key(tx.from);
    let f = account_of(accounts, fk);
    accounts.insert(
        fk,
        AccountState { balance: (f.balance - tx.amount) as u64, nonce: (f.nonce + 1) as u64 },
    )
}

/// Applying one transaction to the accounts: the sender's account is
/// materialised first; a nonce other than the sender's next nonce, or a
/// balance below the amount, is refused; otherwise the sender is debited,
/// its nonce advances, and the recipient is credited.
pub open spec fn transfer_outcome(accounts: Map<Seq<char>, AccountState>, tx: Transaction) -> (
    Map<Seq<char>, AccountState>,
    Result<(), TxError>,
) {
    let fk = address_key(tx.from);
    let touched = touch(accounts, fk);
    let f = account_of(accounts, fk);
    if tx.nonce != f.nonce {
        (touched, Err(TxError::InvalidNonce { expected: f.nonce, got: tx.nonce }))
    } else if f.balance < tx.amount {
        (touched, Err(TxError::InsufficientBalance { need: tx.amount, have: f.balance }))
    } else {
        let after_debit = debited(accounts, tx);
        let tk = address_key(tx.to);
        let t = account_of(after_debit, tk);
        (
            after_debit.insert(
                tk,
                AccountState { balance: (t.balance + tx.amount) as u64, nonce: t.nonce },
            ),
            Ok(()),
        )
    }
}

/// Whether applying the transaction would take the sender's nonce or the
/// recipient's balance past `u64::MAX`.
pub open spec fn transfer_overflows(accounts: Map<Seq<char>, AccountState>, tx: Transaction) -> bool {
    let f = account_of(accounts, address_key(tx.from));
    &&& tx.nonce == f.nonce
    &&& f.balance >= tx.amount
    &&& (f.nonce == u64::MAX || account_of(debited(accounts, tx), address_key(tx.to)).balance
        + tx.amount > u64::MAX)
}

/// Applying transactions in order, stopping at the first refusal; the
/// accounts keep what the earlier transactions did.
pub open spec fn block_outcome(accounts: Map<Seq<char>, AccountState>, txs: Seq<Transaction>) -> (
    Map<Seq<char>, AccountState>,
    Result<(), TxError>,
)
    decreases txs.len(),
{
    if txs.len() == 0 {
        (accounts, Ok(()))
    } else {
        let prev = block_outcome(accounts, txs.drop_last());
        if prev.1 is Err {
            prev
        } else {
            transfer_outcome(prev.0, txs.last())
        }
    }
}

/// Whether some transaction that `block_outcome` reaches would overflow.
pub open spec fn block_overflows(accounts: Map<Seq<char>, AccountState>, txs: Seq<Transaction>) -> bool
    decreases txs.len(),
{
    if txs.len() == 0 {
        false
    } else {
        let prev = block_outcome(accounts, txs.drop_last());
        block_overflows(accounts, txs.drop_last()) || (prev.1 is Ok && transfer_overflows(
            prev.0,
            txs.last(),
        ))
    }
}

proof fn lemma_prefix_no_overflow(
    accounts: Map<Seq<char>, AccountState>,
    txs: Seq<Transaction>,
    i: int,
)
    requires
        0 <= i <= txs.len(),
        !block_overflows(accounts, txs),
    ensures
        !block_overflows(accounts, txs.subrange(0, i)),
        i < txs.len() && block_outcome(accounts, txs.subrange(0, i)).1 is Ok ==> !transfer_overflows(
            block_outcome(accounts, txs.subrange(0, i)).0,
            txs[i],
        ),
    decreases txs.len() - i,
{
    if i == txs.len() {
        assert(txs.subrange(0, i) =~= txs);
    } else {
        lemma_prefix_no_overflow(accounts, txs, i + 1);
        assert(txs.subrange(0, i + 1).drop_last() =~= txs.subrange(0, i));
    }
}

proof fn lemma_refusal_sticks(
    accounts: Map<Seq<char>, AccountState>,
    txs: Seq<Transaction>,
    i: int,
    j: int,
)
    requires
        0 <= i <= j <= txs.len(),
        block_outcome(accounts, txs.subrange(0, i)).1 is Err,
    ensures
        block_outcome(accounts, txs.subrange(0, j)) == block_outcome(accounts, txs.subrange(0, i)),
        block_overflows(accounts, txs.subrange(0, j)) == block_overflows(
            accounts,
            txs.subrange(0, i),
        ),
    decreases j - i,
{
    if j > i {
        lemma_refusal_sticks(accounts, txs, i, j - 1);
        assert(txs.subrange(0, j).drop_last() =~= txs.subrange(0, j - 1));
    }
}

// ---------------------------------------------------------------------------
// Total supply
// ---------------------------------------------------------------------------

/// The step that adds an account's balance to a running total.
pub open spec fn add_balance(accounts: Map<Seq<char>, AccountState>) -> spec_fn(int, Seq<char>) -> int {
    |total: int, key: Seq<char>| total + accounts[key].balance
}

/// The sum of all balances of the accounts.
pub open spec fn total_balance(accounts: Map<Seq<char>, AccountState>) -> int {
    accounts.dom().fold(0int, add_balance(accounts))
}

proof fn lemma_add_balance_commutative(accounts: Map<Seq<char>, AccountState>)
    ensures
        vstd::set::fold::is_fun_commutative(add_balance(accounts)),
{
    let f = add_balance(accounts);
    assert forall|a1: Seq<char>, a2: Seq<char>, b: int| #[trigger] f(f(b, a2), a1) == f(f(b, a1), a2) by {
    }
}

/// Folding two maps' balances over a set of keys on which they agree gives
/// the same total.
proof fn lemma_fold_agree(
    keys: Set<Seq<char>>,
    m1: Map<Seq<char>, AccountState>,
    m2: Map<Seq<char>, AccountState>,
)
    requires
        keys.finite(),
        forall|k: Seq<char>| keys.contains(k) ==> #[trigger] m1[k].balance == m2[k].balance,
    ensures
        keys.fold(0int, add_balance(m1)) == keys.fold(0int, add_balance(m2)),
    decreases keys.len(),
{
    lemma_add_balance_commutative(m1);
    lemma_add_balance_commutative(m2);
    if keys.len() == 0 {
        assert(keys =~= Set::<Seq<char>>::empty());
        vstd::set::fold::lemma_fold_empty(0int, add_balance(m1));
        vstd::set::fold::lemma_fold_empty(0int, add_balance(m2));
    } else {
        let a = keys.choose();
        assert(keys.contains(a));
        let rest = keys.remove(a);
        lemma_fold_agree(rest, m1, m2);
        assert(rest.insert(a) =~= keys);
        vstd::set::fold::lemma_fold_insert(rest, 0int, add_balance(m1), a);
        vstd::set::fold::lemma_fold_insert(rest, 0int, add_balance(m2), a);
    }
}

/// Storing `account` under `key` changes the total by the difference
/// between the new balance and the balance `key` read before.
pub proof fn lemma_total_after_insert(
    accounts: Map<Seq<char>, AccountState>,
    key: Seq<char>,
    account: AccountState,
)
    requires
        accounts.dom().finite(),
    ensures
        accounts.insert(key, account).dom().finite(),
        total_balance(accounts.insert(key, account)) == total_balance(accounts) - account_of(
            accounts,
            key,
        ).balance + account.balance,
{
    let after = accounts.insert(key, account);
    lemma_add_balance_commutative(accounts);
    lemma_add_balance_commutative(after);
    let rest = accounts.dom().remove(key);
    assert forall|k: Seq<char>| rest.contains(k) implies #[trigger] after[k].balance
        == accounts[k].balance by {}
    lemma_fold_agree(rest, after, accounts);
    assert(rest.insert(key) =~= after.dom());
    vstd::set::fold::lemma_fold_insert(rest, 0int, add_balance(after), key);
    if accounts.dom().contains(key) {
        assert(rest.insert(key) =~= accounts.dom());
        vstd::set::fold::lemma_fold_insert(rest, 0int, add_balance(accounts), key);
    } else {
        assert(rest =~= accounts.dom());
    }
}

/// Supply conservation: applying a transaction, whether it is applied or
/// refused, leaves the sum of all balances unchanged.
pub proof fn lemma_transfer_conserves_supply(accounts: Map<Seq<char>, AccountState>, tx: Transaction)
    requires
        accounts.dom().finite(),
        !transfer_overflows(accounts, tx),
    ensures
        transfer_outcome(accounts, tx).0.dom().finite(),
        total_balance(transfer_outcome(accounts, tx).0) == total_balance(accounts),
{
    let fk = address_key(tx.from);
    let f = account_of(accounts, fk);
    if !accounts.contains_key(fk) {
        lemma_total_after_insert(accounts, fk, fresh_account());
    }
    if tx.nonce == f.nonce && f.balance >= tx.amount {
        let debit = debited(accounts, tx);
        lemma_total_after_insert(accounts, fk, debit[fk]);
        let tk = address_key(tx.to);
        let t = account_of(debit, tk);
        lemma_total_after_insert(
            debit,
            tk,
            AccountState { balance: (t.balance + tx.amount) as u64, nonce: t.nonce },
        );
    }
}

/// Supply conservation for a block: applying its transactions in order,
/// up to the first refusal, leaves the sum of all balances unchanged.
pub proof fn lemma_block_conserves_supply(
    accounts: Map<Seq<char>, AccountState>,
    txs: Seq<Transaction>,
)
    requires
        accounts.dom().finite(),
        !block_overflows(accounts, txs),
    ensures
        block_outcome(accounts, txs).0.dom().finite(),
        total_balance(block_outcome(accounts, txs).0) == total_balance(accounts),
    decreases txs.len(),
{
    if txs.len() > 0 {
        lemma_block_conserves_supply(accounts, txs.drop_last());
        let prev = block_outcome(accounts, txs.drop_last());
        if prev.1 is Ok {
            lemma_transfer_conserves_supply(prev.0, txs.last());
        }
    }
}

/// Replay protection: a transaction that has been applied is refused when it
/// is applied again, because the sender's nonce has moved past it.
pub proof fn lemma_replay_refused(accounts: Map<Seq<char>, AccountState>, tx: Transaction)
    requires
        transfer_outcome(accounts, tx).1 is Ok,
        !transfer_overflows(accounts, tx),
    ensures
        transfer_outcome(transfer_outcome(accounts, tx).0, tx).1 == Err::<(), TxError>(
            TxError::InvalidNonce { expected: (tx.nonce + 1) as u64, got: tx.nonce },
        ),
{
    let fk = address_key(tx.from);
    let tk = address_key(tx.to);
    let after = transfer_outcome(accounts, tx).0;
    assert(after.contains_key(fk));
    assert(account_of(after, fk).nonce == (tx.nonce + 1) as u64);
}

/// A refused transaction moves no funds and advances no nonce: every
/// account reads as it did before.
pub proof fn lemma_refusal_changes_nothing(
    accounts: Map<Seq<char>, AccountState>,
    tx: Transaction,
    key: Seq<char>,
)
    requires
        transfer_outcome(accounts, tx).1 is Err,
    ensures
        account_of(transfer_outcome(accounts, tx).0, key) == account_of(accounts, key),
{
}

/// An applied transfer debits the sender by the amount and advances its
/// nonce by one, credits the recipient by the amount, and leaves every
/// other account as it was; a transfer to oneself only advances the nonce.
/// In particular the sender's and recipient's balances sum to what they
/// summed to before.
pub proof fn lemma_transfer_effect(
    accounts: Map<Seq<char>, AccountState>,
    tx: Transaction,
    other: Seq<char>,
)
    requires
        transfer_outcome(accounts, tx).1 is Ok,
        !transfer_overflows(accounts, tx),
    ensures
        address_key(tx.from) != address_key(tx.to) ==> {
            &&& account_of(transfer_outcome(accounts, tx).0, address_key(tx.from)).balance
                == account_of(accounts, address_key(tx.from)).balance - tx.amount
            &&& account_of(transfer_outcome(accounts, tx).0, address_key(tx.from)).nonce
                == account_of(accounts, address_key(tx.from)).nonce + 1
            &&& account_of(transfer_outcome(accounts, tx).0, address_key(tx.to)).balance
                == account_of(accounts, address_key(tx.to)).balance + tx.amount
            &&& account_of(transfer_outcome(accounts, tx).0, address_key(tx.to)).nonce
                == account_of(accounts, address_key(tx.to)).nonce
        },
        address_key(tx.from) == address_key(tx.to) ==> {
            &&& account_of(transfer_outcome(accounts, tx).0, address_key(tx.from)).balance
                == account_of(accounts, address_key(tx.from)).balance
            &&& account_of(transfer_outcome(accounts, tx).0, address_key(tx.from)).nonce
                == account_of(accounts, address_key(tx.from)).nonce + 1
        },
        other != address_key(tx.from) && other != address_key(tx.to) ==> account_of(
            transfer_outcome(accounts, tx).0,
            other,
        ) == account_of(accounts, other),
{
}

/// Full chain state — everything needed to validate the next block.
#[derive(Debug)]
pub struct ChainState {
    pub height: u64,
    pub block_hash: BlockHash,
    /// Accounts by the lowercase hex of their address
    pub accounts: AccountTable,
    pub validators: Vec<ValidatorInfo>,
}

impl Clone for ChainState {
    fn clone(&self) -> (copy: Self)
        ensures
            copy.height == self.height,
            copy.block_hash == self.block_hash,
            copy.accounts@ == self.accounts@,
            copy.validators@ == self.validators@,
    {
        let mut validators: Vec<ValidatorInfo> = Vec::new();
        let mut i: usize = 0;
        while i < self.validators.len()
            invariant
                i <= self.validators@.len(),
                validators@ == self.validators@.subrange(0, i as int),
            decreases self.validators@.len() - i,
        {
            validators.push(self.validators[i]);
            i = i + 1;
            assert(validators@ =~= self.validators@.subrange(0, i as int));
        }
        assert(self.validators@.subrange(0, self.validators@.len() as int) =~= self.validators@);
        ChainState {
            height: self.height,
            block_hash: self.block_hash,
            accounts: self.accounts.clone(),
            validators,
        }
    }
}

impl ChainState {
    pub fn account(&self, addr: &Address) -> (account: AccountState)
        ensures
            account == account_of(self.accounts@, address_key(*addr)),
    {
        let key = addr.as_hex();
        match self.accounts.get(&key) {
            Some(a) => a,
            None => AccountState::default(),
        }
    }

    /// Applies `tx` to `accounts`, or reports `None` where the transfer would
    /// overflow (the accounts are then of no further interest).
    fn transfer(accounts: &mut AccountTable, tx: &Transaction) -> (res: Option<Result<(), TxError>>)
        ensures
            res is None <==> transfer_overflows(old(accounts)@, *tx),
            res matches Some(r) ==> final(accounts)@ == transfer_outcome(old(accounts)@, *tx).0 && r
                == transfer_outcome(old(accounts)@, *tx).1,
    {
        let ghost start = accounts@;
        let fk = tx.from.as_hex();
        let f = match accounts.get(&fk) {
            Some(a) => a,
            None => {
                let key = fk.clone();
                accounts.insert(key, AccountState::default());
                AccountState::default()
            },
        };
        assert(accounts@ == touch(start, fk@));
        if tx.nonce != f.nonce {
            return Some(Err(TxError::InvalidNonce { expected: f.nonce, got: tx.nonce }));
        }
        if f.balance < tx.amount {
            return Some(Err(TxError::InsufficientBalance { need: tx.amount, have: f.balance }));
        }
        if f.nonce == u64::MAX {
            return None;
        }
        accounts.insert(fk, AccountState { balance: f.balance - tx.amount, nonce: f.nonce + 1 });
        assert(accounts@ =~= debited(start, *tx));
        let tk = tx.to.as_hex();
        let t = match accounts.get(&tk) {
            Some(a) => a,
            None => AccountState::default(),
        };
        if t.balance > u64::MAX - tx.amount {
            return None;
        }
        accounts.insert(tk, AccountState { balance: t.balance + tx.amount, nonce: t.nonce });
        Some(Ok(()))
    }

    /// Apply a single verified transaction.
    pub fn apply_tx(&mut self, tx: &Transaction) -> (res: Result<(), TxError>)
        requires
            !transfer_overflows(old(self).accounts@, *tx),
        ensures
            final(self).accounts@ == transfer_outcome(old(self).accounts@, *tx).0,
            res == transfer_outcome(old(self).accounts@, *tx).1,
            final(self).height == old(self).height,
            final(self).block_hash == old(self).block_hash,
            final(self).validators@ == old(self).validators@,
            total_balance(final(self).accounts@) == total_balance(old(self).accounts@),
    {
        proof {
            use_type_invariant(&self.accounts);
            self.accounts.lemma_view_finite();
            lemma_transfer_conserves_supply(self.accounts@, *tx);
        }
        match Self::transfer(&mut self.accounts, tx) {
            Some(r) => r,
            None => {
                proof {
                    assert(false);
                }
                Err(TxError::SignerMismatch)
            },
        }
    }

    /// Whether applying `txs` in order (as `apply_block` does) would overflow
    /// a nonce or a balance.
    pub fn block_would_overflow(&self, txs: &Vec<Transaction>) -> (overflows: bool)
        ensures
            overflows == block_overflows(self.accounts@, txs@),
    {
        let mut scratch = self.accounts.clone();
        let mut i: usize = 0;
        while i < txs.len()
            invariant
                i <= txs@.len(),
                scratch@ == block_outcome(self.accounts@, txs@.subrange(0, i as int)).0,
                block_outcome(self.accounts@, txs@.subrange(0, i as int)).1 is Ok,
                !block_overflows(self.accounts@, txs@.subrange(0, i as int)),
            decreases txs@.len() - i,
        {
            let ghost prefix = txs@.subrange(0, i + 1);
            assert(prefix.drop_last() =~= txs@.subrange(0, i as int));
            match Self::transfer(&mut scratch, &txs[i]) {
                None => {
                    proof {
                        if !block_overflows(self.accounts@, txs@) {
                            lemma_prefix_no_overflow(self.accounts@, txs@, i as int);
                        }
                    }
                    return true;
                },
                Some(Err(_)) => {
                    proof {
                        lemma_refusal_sticks(self.accounts@, txs@, i + 1, txs@.len() as int);
                        assert(txs@.subrange(0, txs@.len() as int) =~= txs@);
                    }
                    return false;
                },
                Some(Ok(())) => {},
            }
            i = i + 1;
        }
        assert(txs@.subrange(0, txs@.len() as int) =~= txs@);
        false
    }

    /// Apply a full block to produce the next state.
    pub fn apply_block(&mut self, block: &Block) -> (res: Result<(), TxError>)
        requires
            !block_overflows(old(self).accounts@, block.transactions@),
        ensures
            final(self).accounts@ == block_outcome(old(self).accounts@, block.transactions@).0,
            res == block_outcome(old(self).accounts@, block.transactions@).1,
            res is Ok ==> final(self).height == block.header.height && final(self).block_hash.0@
                == header_hash(block.header),
            res is Err ==> final(self).height == old(self).height && final(self).block_hash
                == old(self).block_hash,
            final(self).validators@ == old(self).validators@,
            total_balance(final(self).accounts@) == total_balance(old(self).accounts@),
    {
        proof {
            use_type_invariant(&self.accounts);
            self.accounts.lemma_view_finite();
            lemma_block_conserves_supply(self.accounts@, block.transactions@);
        }
        let ghost start = self.accounts@;
        let txs = &block.transactions;
        let mut i: usize = 0;
        while i < txs.len()
            invariant
                i <= txs@.len(),
                txs == &block.transactions,
                start == old(self).accounts@,
                total_balance(block_outcome(start, txs@).0) == total_balance(start),
                !block_overflows(start, txs@),
                self.accounts@ == block_outcome(start, txs@.subrange(0, i as int)).0,
                block_outcome(start, txs@.subrange(0, i as int)).1 is Ok,
                self.height == old(self).height,
                self.block_hash == old(self).block_hash,
                self.validators@ == old(self).validators@,
            decreases txs@.len() - i,
        {
            proof {
                lemma_prefix_no_overflow(start, txs@, i as int);
                assert(txs@.subrange(0, i + 1).drop_last() =~= txs@.subrange(0, i as int));
            }
            match self.apply_tx(&txs[i]) {
                Err(e) => {
                    proof {
                        assert(txs@.subrange(0, i + 1).last() == txs@[i as int]);
                        assert(block_outcome(start, txs@.subrange(0, i + 1)) == transfer_outcome(
                            block_outcome(start, txs@.subrange(0, i as int)).0,
                            txs@[i as int],
                        ));
                        lemma_refusal_sticks(start, txs@, i + 1, txs@.len() as int);
                        assert(txs@.subrange(0, txs@.len() as int) =~= txs@);
                    }
                    return Err(e);
                },
                Ok(()) => {},
            }
            i = i + 1;
        }
        assert(txs@.subrange(0, txs@.len() as int) =~= txs@);
        self.height = block.header.height;
        self.block_hash = block.hash();
        Ok(())
    }
}

} // verus!
