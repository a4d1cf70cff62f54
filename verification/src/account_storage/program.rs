//! An owning account store: each account as a structured record.

use crate::account_storage::AccountStorage;
use crate::error::Error;
use crate::executor::action::{
    balance_after, balance_step, code_after, code_step, nonce_after, nonce_step, storage_after,
    storage_step, zero_word, Action,
};
use crate::types::Address;
use crate::u256::{lemma_view_injective, saturating_difference, saturating_sum, U256};
use vstd::prelude::*;

verus! {

/// One durable account.
#[derive(Clone, Debug)]
pub struct Account {
    /// The account's identifier.
    pub address: Address,
    /// The account's balance.
    pub balance: U256,
    /// The number of transactions that the account has sent.
    pub nonce: u64,
    /// The contract code; empty for an account without code.
    pub code: Vec<u8>,
    /// The storage slots as pairs of key and value. The first pair with a key
    /// holds the slot; a key without a pair reads as zero.
    pub storage: Vec<(U256, U256)>,
    /// The signature of the transaction whose session holds the account's
    /// lock, if one does.
    pub lock: Option<[u8; 65]>,
}

/// The accounts that one invocation was handed. The first account with an
/// address stands for it; an address without an account reads as empty.
#[derive(Clone, Debug)]
pub struct ProgramAccountStorage {
    /// The chain that the store belongs to.
    pub chain_id: u64,
    /// The accounts.
    pub accounts: Vec<Account>,
}

/// Whether the lock is held for the transaction with the signature
/// `holder`.
pub open spec fn held_by(lock: Option<[u8; 65]>, holder: Seq<u8>) -> bool {
    match lock {
        Some(signature) => signature@ == holder,
        None => false,
    }
}

/// Whether the account is the empty account of the address: no balance, no
/// nonce, no code, no storage, no lock.
pub open spec fn is_empty_account(account: Account, address: Address) -> bool {
    &&& account.address == address
    &&& account.balance == zero_word()
    &&& account.nonce == 0
    &&& account.code@.len() == 0
    &&& account.storage@.len() == 0
    &&& account.lock is None
}

/// The first account at or after `from` with the address, or the number of
/// accounts if there is none.
pub open spec fn first_account(accounts: Seq<Account>, address: Address, from: int) -> int
    decreases accounts.len() - from,
{
    if from >= accounts.len() {
        accounts.len() as int
    } else if accounts[from].address@ == address@ {
        from
    } else {
        first_account(accounts, address, from + 1)
    }
}

/// The first pair at or after `from` with the key, or the number of pairs if
/// there is none.
pub open spec fn first_slot(slots: Seq<(U256, U256)>, key: U256, from: int) -> int
    decreases slots.len() - from,
{
    if from >= slots.len() {
        slots.len() as int
    } else if slots[from].0 == key {
        from
    } else {
        first_slot(slots, key, from + 1)
    }
}

/// The value that the pairs hold for the key.
pub open spec fn slot_value(slots: Seq<(U256, U256)>, key: U256) -> U256 {
    let at = first_slot(slots, key, 0);
    if at < slots.len() {
        slots[at].1
    } else {
        zero_word()
    }
}

/// Where the first account with an address lies.
pub proof fn lemma_first_account_bounds(accounts: Seq<Account>, address: Address, from: int)
    requires
        0 <= from <= accounts.len(),
    ensures
        from <= first_account(accounts, address, from) <= accounts.len(),
        first_account(accounts, address, from) < accounts.len() ==> accounts[first_account(
            accounts,
            address,
            from,
        )].address@ == address@,
    decreases accounts.len() - from,
{
    if from < accounts.len() && accounts[from].address@ != address@ {
        lemma_first_account_bounds(accounts, address, from + 1);
    }
}

/// Two lists with the same addresses find every address at the same place.
pub proof fn lemma_first_account_by_addresses(
    a: Seq<Account>,
    b: Seq<Account>,
    address: Address,
    from: int,
)
    requires
        0 <= from,
        a.len() == b.len(),
        forall|i: int| 0 <= i < a.len() ==> a[i].address@ == b[i].address@,
    ensures
        first_account(a, address, from) == first_account(b, address, from),
    decreases a.len() - from,
{
    if from < a.len() && a[from].address@ != address@ {
        lemma_first_account_by_addresses(a, b, address, from + 1);
    }
}

/// A list with one more account finds an address where the shorter list
/// does, and an address that the shorter list lacks in the new account or
/// nowhere.
pub proof fn lemma_first_account_pushed(
    a: Seq<Account>,
    account: Account,
    address: Address,
    from: int,
)
    requires
        0 <= from <= a.len(),
    ensures
        first_account(a, address, from) < a.len() ==> first_account(
            a.push(account),
            address,
            from,
        ) == first_account(a, address, from),
        first_account(a, address, from) >= a.len() ==> first_account(
            a.push(account),
            address,
            from,
        ) == (if account.address@ == address@ {
            a.len() as int
        } else {
            a.len() as int + 1
        }),
    decreases a.len() - from,
{
    let b = a.push(account);
    if from < a.len() {
        assert(b[from] == a[from]);
        if a[from].address@ != address@ {
            lemma_first_account_pushed(a, account, address, from + 1);
        }
    } else {
        assert(b[from] == account);
        assert(first_account(b, address, from + 1) == b.len());
    }
}

/// Where the first pair with a key lies.
pub proof fn lemma_first_slot_bounds(slots: Seq<(U256, U256)>, key: U256, from: int)
    requires
        0 <= from <= slots.len(),
    ensures
        from <= first_slot(slots, key, from) <= slots.len(),
        first_slot(slots, key, from) < slots.len() ==> slots[first_slot(slots, key, from)].0
            == key,
    decreases slots.len() - from,
{
    if from < slots.len() && slots[from].0 != key {
        lemma_first_slot_bounds(slots, key, from + 1);
    }
}

/// Two lists of pairs with the same keys find every key at the same place.
pub proof fn lemma_first_slot_by_keys(
    a: Seq<(U256, U256)>,
    b: Seq<(U256, U256)>,
    key: U256,
    from: int,
)
    requires
        0 <= from,
        a.len() == b.len(),
        forall|i: int| 0 <= i < a.len() ==> a[i].0 == b[i].0,
    ensures
        first_slot(a, key, from) == first_slot(b, key, from),
    decreases a.len() - from,
{
    if from < a.len() && a[from].0 != key {
        lemma_first_slot_by_keys(a, b, key, from + 1);
    }
}

/// A list with one more pair finds a key where the shorter list does, and a
/// key that the shorter list lacks in the new pair or nowhere.
pub proof fn lemma_first_slot_pushed(
    a: Seq<(U256, U256)>,
    pair: (U256, U256),
    key: U256,
    from: int,
)
    requires
        0 <= from <= a.len(),
    ensures
        first_slot(a, key, from) < a.len() ==> first_slot(a.push(pair), key, from) == first_slot(
            a,
            key,
            from,
        ),
        first_slot(a, key, from) >= a.len() ==> first_slot(a.push(pair), key, from) == (if pair.0
            == key {
            a.len() as int
        } else {
            a.len() as int + 1
        }),
    decreases a.len() - from,
{
    let b = a.push(pair);
    if from < a.len() {
        assert(b[from] == a[from]);
        if a[from].0 != key {
            lemma_first_slot_pushed(a, pair, key, from + 1);
        }
    } else {
        assert(b[from] == pair);
        assert(first_slot(b, key, from + 1) == b.len());
    }
}

/// What the pairs hold after `value` was stored for `key`, in place or in a
/// new pair: `value` for the key, and what they held for every other key.
pub proof fn lemma_slot_written(
    before: Seq<(U256, U256)>,
    after: Seq<(U256, U256)>,
    key: U256,
    value: U256,
    other: U256,
)
    requires
        ({
            let at = first_slot(before, key, 0);
            if at < before.len() {
                after == before.update(at, (key, value))
            } else {
                after == before.push((key, value))
            }
        }),
    ensures
        slot_value(after, other) == (if other == key {
            value
        } else {
            slot_value(before, other)
        }),
{
    let at = first_slot(before, key, 0);
    lemma_first_slot_bounds(before, key, 0);
    lemma_first_slot_bounds(before, other, 0);
    if at < before.len() {
        lemma_first_slot_by_keys(before, after, other, 0);
    } else {
        lemma_first_slot_pushed(before, (key, value), other, 0);
    }
}

impl ProgramAccountStorage {
    /// The account that stands for the address, if the store holds one.
    pub open spec fn account_of(&self, address: Address) -> Option<Account> {
        let at = first_account(self.accounts@, address, 0);
        if at < self.accounts@.len() {
            Some(self.accounts@[at])
        } else {
            None
        }
    }

    /// The nonce that the store holds for `address`.
    pub open spec fn nonce_of(&self, address: Address) -> u64 {
        match self.account_of(address) {
            Some(account) => account.nonce,
            None => 0,
        }
    }

    /// The balance that the store holds for `address`.
    pub open spec fn balance_of(&self, address: Address) -> U256 {
        match self.account_of(address) {
            Some(account) => account.balance,
            None => zero_word(),
        }
    }

    /// The code that the store holds for `address`.
    pub open spec fn code_of(&self, address: Address) -> Seq<u8> {
        match self.account_of(address) {
            Some(account) => account.code@,
            None => Seq::empty(),
        }
    }

    /// The value that the store holds in slot `key` of `address`.
    pub open spec fn storage_of(&self, address: Address, key: U256) -> U256 {
        match self.account_of(address) {
            Some(account) => slot_value(account.storage@, key),
            None => zero_word(),
        }
    }

    /// The lock on the account that stands for `address`.
    pub open spec fn lock_of(&self, address: Address) -> Option<[u8; 65]> {
        match self.account_of(address) {
            Some(account) => account.lock,
            None => None,
        }
    }

    /// Whether some account of the store is locked.
    pub open spec fn any_blocked(&self) -> bool {
        exists|i: int|
            0 <= i < self.accounts@.len() && (#[trigger] self.accounts@[i]).lock is Some
    }

    /// Whether the session of the transaction with the signature `holder`
    /// holds the lock on every account of the store.
    pub open spec fn all_held_by(&self, holder: Seq<u8>) -> bool {
        forall|i: int|
            0 <= i < self.accounts@.len() ==> held_by((#[trigger] self.accounts@[i]).lock, holder)
    }

    /// Whether both stores read the same nonce, code and storage everywhere.
    pub open spec fn same_contracts(&self, other: &ProgramAccountStorage) -> bool {
        &&& self.chain_id == other.chain_id
        &&& forall|a: Address|
            #![trigger self.nonce_of(a)]
            #![trigger other.nonce_of(a)]
            self.nonce_of(a) == other.nonce_of(a)
        &&& forall|a: Address|
            #![trigger self.code_of(a)]
            #![trigger other.code_of(a)]
            self.code_of(a) == other.code_of(a)
        &&& forall|a: Address, k: U256|
            #![trigger self.storage_of(a, k)]
            #![trigger other.storage_of(a, k)]
            self.storage_of(a, k) == other.storage_of(a, k)
    }

    /// Whether both stores read the same balance everywhere.
    pub open spec fn same_balances(&self, other: &ProgramAccountStorage) -> bool {
        forall|a: Address|
            #![trigger self.balance_of(a)]
            #![trigger other.balance_of(a)]
            self.balance_of(a) == other.balance_of(a)
    }

    /// Whether both stores read the same lock everywhere.
    pub open spec fn same_locks(&self, other: &ProgramAccountStorage) -> bool {
        forall|a: Address|
            #![trigger self.lock_of(a)]
            #![trigger other.lock_of(a)]
            self.lock_of(a) == other.lock_of(a)
    }

    /// Whether this store reads everywhere what `before` reads after the one
    /// action.
    pub open spec fn stepped(&self, before: &ProgramAccountStorage, action: Action) -> bool {
        &&& self.chain_id == before.chain_id
        &&& self.same_locks(before)
        &&& forall|a: Address| #[trigger]
            self.nonce_of(a) == nonce_step(action, a, before.nonce_of(a))
        &&& forall|a: Address| (#[trigger] self.balance_of(a))@ == balance_step(
            action,
            a,
            before.balance_of(a)@,
        )
        &&& forall|a: Address| #[trigger] self.code_of(a) == code_step(action, a, before.code_of(a))
        &&& forall|a: Address, k: U256| #[trigger]
            self.storage_of(a, k) == storage_step(action, a, k, before.storage_of(a, k))
    }

    /// Whether this store reads everywhere what `before` reads after the
    /// actions, applied in order.
    pub open spec fn reads_after(&self, before: &ProgramAccountStorage, actions: Seq<Action>) -> bool {
        &&& self.chain_id == before.chain_id
        &&& forall|a: Address| #[trigger]
            self.nonce_of(a) == nonce_after(actions, a, before.nonce_of(a))
        &&& forall|a: Address| (#[trigger] self.balance_of(a))@ == balance_after(
            actions,
            a,
            before.balance_of(a)@,
        )
        &&& forall|a: Address| #[trigger]
            self.code_of(a) == code_after(actions, a, before.code_of(a))
        &&& forall|a: Address, k: U256| #[trigger]
            self.storage_of(a, k) == storage_after(actions, a, k, before.storage_of(a, k))
    }

    /// Whether this store reads everywhere what `before` reads after the
    /// actions, and holds the locks that `before` holds.
    pub open spec fn applied(&self, before: &ProgramAccountStorage, actions: Seq<Action>) -> bool {
        &&& self.reads_after(before, actions)
        &&& self.same_locks(before)
    }

    /// A store that reads what `mid` reads after `rest`, where `mid` reads
    /// what `before` reads after `first`, reads what `before` reads after
    /// `first` and then `rest`.
    pub proof fn lemma_reads_after_prepend(
        self,
        mid: ProgramAccountStorage,
        before: ProgramAccountStorage,
        first: Action,
        rest: Seq<Action>,
    )
        requires
            mid.stepped(&before, first),
            self.reads_after(&mid, rest),
        ensures
            self.reads_after(&before, seq![first] + rest),
    {
        let all = seq![first] + rest;
        assert forall|a: Address| #[trigger]
            self.nonce_of(a) == nonce_after(all, a, before.nonce_of(a)) by {
            crate::executor::action::lemma_nonce_after_prepend(first, rest, a, before.nonce_of(a));
            assert(mid.nonce_of(a) == nonce_step(first, a, before.nonce_of(a)));
        }
        assert forall|a: Address| (#[trigger] self.balance_of(a))@ == balance_after(
            all,
            a,
            before.balance_of(a)@,
        ) by {
            crate::executor::action::lemma_balance_after_prepend(
                first,
                rest,
                a,
                before.balance_of(a)@,
            );
            assert(mid.balance_of(a)@ == balance_step(first, a, before.balance_of(a)@));
        }
        assert forall|a: Address| #[trigger]
            self.code_of(a) == code_after(all, a, before.code_of(a)) by {
            crate::executor::action::lemma_code_after_prepend(first, rest, a, before.code_of(a));
            assert(mid.code_of(a) == code_step(first, a, before.code_of(a)));
        }
        assert forall|a: Address, k: U256| #[trigger]
            self.storage_of(a, k) == storage_after(all, a, k, before.storage_of(a, k)) by {
            crate::executor::action::lemma_storage_after_prepend(
                first,
                rest,
                a,
                k,
                before.storage_of(a, k),
            );
            assert(mid.storage_of(a, k) == storage_step(first, a, k, before.storage_of(a, k)));
        }
    }

    /// A store that reads as `mid` does reads after any actions what `mid`
    /// reads after them.
    pub proof fn lemma_reads_after_same(
        self,
        mid: ProgramAccountStorage,
        before: ProgramAccountStorage,
        actions: Seq<Action>,
    )
        requires
            self.same_contracts(&mid),
            self.same_balances(&mid),
            mid.reads_after(&before, actions),
        ensures
            self.reads_after(&before, actions),
    {
        assert forall|a: Address| #[trigger]
            self.nonce_of(a) == nonce_after(actions, a, before.nonce_of(a)) by {
            assert(mid.nonce_of(a) == nonce_after(actions, a, before.nonce_of(a)));
        }
        assert forall|a: Address| (#[trigger] self.balance_of(a))@ == balance_after(
            actions,
            a,
            before.balance_of(a)@,
        ) by {
            assert(mid.balance_of(a)@ == balance_after(actions, a, before.balance_of(a)@));
        }
        assert forall|a: Address| #[trigger]
            self.code_of(a) == code_after(actions, a, before.code_of(a)) by {
            assert(mid.code_of(a) == code_after(actions, a, before.code_of(a)));
        }
        assert forall|a: Address, k: U256| #[trigger]
            self.storage_of(a, k) == storage_after(actions, a, k, before.storage_of(a, k)) by {
            assert(mid.storage_of(a, k) == storage_after(actions, a, k, before.storage_of(a, k)));
        }
    }

    /// A store that reads what `before` reads after one transfer reads the
    /// nonce, code and storage that `before` reads, and the balances that the
    /// transfer makes of those of `before`.
    pub proof fn lemma_transfer_keeps_contracts(
        self,
        before: ProgramAccountStorage,
        transfer: Action,
    )
        requires
            transfer is Transfer,
            self.reads_after(&before, seq![transfer]),
        ensures
            self.same_contracts(&before),
            forall|a: Address| (#[trigger] self.balance_of(a))@ == balance_step(
                transfer,
                a,
                before.balance_of(a)@,
            ),
    {
        let log = seq![transfer];
        assert(log.drop_last() =~= Seq::<Action>::empty());
        assert(log.last() == transfer);
        assert forall|a: Address|
            #![trigger self.nonce_of(a)]
            #![trigger before.nonce_of(a)]
            self.nonce_of(a) == before.nonce_of(a) by {
            assert(self.nonce_of(a) == nonce_after(log, a, before.nonce_of(a)));
            assert(nonce_after(log.drop_last(), a, before.nonce_of(a)) == before.nonce_of(a));
        }
        assert forall|a: Address|
            #![trigger self.code_of(a)]
            #![trigger before.code_of(a)]
            self.code_of(a) == before.code_of(a) by {
            assert(self.code_of(a) == code_after(log, a, before.code_of(a)));
            assert(code_after(log.drop_last(), a, before.code_of(a)) == before.code_of(a));
        }
        assert forall|a: Address, k: U256|
            #![trigger self.storage_of(a, k)]
            #![trigger before.storage_of(a, k)]
            self.storage_of(a, k) == before.storage_of(a, k) by {
            assert(self.storage_of(a, k) == storage_after(log, a, k, before.storage_of(a, k)));
            assert(storage_after(log.drop_last(), a, k, before.storage_of(a, k))
                == before.storage_of(a, k));
        }
        assert forall|a: Address| (#[trigger] self.balance_of(a))@ == balance_step(
            transfer,
            a,
            before.balance_of(a)@,
        ) by {
            assert(balance_after(log.drop_last(), a, before.balance_of(a)@) == before.balance_of(
                a,
            )@);
        }
    }

    /// A store that reads after the actions what `mid` reads after them,
    /// where `mid` reads as `before` does, reads after them what `before`
    /// reads after them.
    pub proof fn lemma_reads_after_from_same(
        self,
        mid: ProgramAccountStorage,
        before: ProgramAccountStorage,
        actions: Seq<Action>,
    )
        requires
            mid.same_contracts(&before),
            mid.same_balances(&before),
        ensures
            self.reads_after(&mid, actions) ==> self.reads_after(&before, actions),
    {
        if self.reads_after(&mid, actions) {
            assert forall|a: Address| #[trigger]
                self.nonce_of(a) == nonce_after(actions, a, before.nonce_of(a)) by {
                assert(mid.nonce_of(a) == before.nonce_of(a));
            }
            assert forall|a: Address| (#[trigger] self.balance_of(a))@ == balance_after(
                actions,
                a,
                before.balance_of(a)@,
            ) by {
                assert(mid.balance_of(a) == before.balance_of(a));
            }
            assert forall|a: Address| #[trigger]
                self.code_of(a) == code_after(actions, a, before.code_of(a)) by {
                assert(mid.code_of(a) == before.code_of(a));
            }
            assert forall|a: Address, k: U256| #[trigger]
                self.storage_of(a, k) == storage_after(actions, a, k, before.storage_of(a, k)) by {
                assert(mid.storage_of(a, k) == before.storage_of(a, k));
            }
        }
    }

    /// A store reads after no action what it reads.
    pub proof fn lemma_reads_after_nothing(self)
        ensures
            self.reads_after(&self, Seq::empty()),
    {
    }

    /// A store without accounts.
    pub fn new(chain_id: u64) -> (r: ProgramAccountStorage)
        ensures
            r.chain_id == chain_id,
            r.accounts@.len() == 0,
    {
        ProgramAccountStorage { chain_id, accounts: Vec::new() }
    }

    /// The place of the account that stands for `address`.
    pub fn find(&self, address: &Address) -> (r: Option<usize>)
        ensures
            r is Some <==> first_account(self.accounts@, *address, 0) < self.accounts@.len(),
            r is Some ==> r.unwrap() == first_account(self.accounts@, *address, 0),
    {
        let mut i: usize = 0;
        while i < self.accounts.len()
            invariant
                i <= self.accounts@.len(),
                first_account(self.accounts@, *address, 0) == first_account(
                    self.accounts@,
                    *address,
                    i as int,
                ),
            decreases self.accounts@.len() - i,
        {
            if self.accounts[i].address.equals(address) {
                return Some(i);
            }
            i += 1;
        }
        None
    }

    /// The place of the account that stands for `address`; an empty account
    /// is added where the store holds none. No read changes.
    pub fn entry(&mut self, address: &Address) -> (r: usize)
        ensures
            r == first_account(final(self).accounts@, *address, 0),
            r < final(self).accounts@.len(),
            final(self).accounts@[r as int].address@ == address@,
            final(self).same_contracts(old(self)),
            final(self).same_balances(old(self)),
            final(self).same_locks(old(self)),
            old(self).account_of(*address) is Some ==> final(self).accounts == old(self).accounts,
            old(self).account_of(*address) is None ==> final(self).accounts@.len() == old(
                self,
            ).accounts@.len() + 1 && final(self).accounts@.drop_last() == old(self).accounts@
                && is_empty_account(final(self).accounts@.last(), *address),
    {
        proof {
            lemma_first_account_bounds(self.accounts@, *address, 0);
        }
        match self.find(address) {
            Some(i) => i,
            None => {
                let account = Account {
                    address: *address,
                    balance: U256::zero_word(),
                    nonce: 0,
                    code: Vec::new(),
                    storage: Vec::new(),
                    lock: None,
                };
                self.accounts.push(account);
                proof {
                    let before = old(self).accounts@;
                    assert(self.accounts@ == before.push(account));
                    assert(self.accounts@.drop_last() =~= before);
                    assert forall|a: Address| #[trigger]
                        self.account_of(a) == old(self).account_of(a) || (old(self).account_of(a)
                            is None && self.account_of(a) == Some(account)) by {
                        lemma_first_account_pushed(before, account, a, 0);
                        lemma_first_account_bounds(before, a, 0);
                    }
                    assert forall|a: Address| #[trigger]
                        self.nonce_of(a) == old(self).nonce_of(a) by {
                        assert(self.account_of(a) == old(self).account_of(a) || (old(
                            self,
                        ).account_of(a) is None && self.account_of(a) == Some(account)));
                    }
                    assert forall|a: Address| #[trigger]
                        self.code_of(a) == old(self).code_of(a) by {
                        assert(self.account_of(a) == old(self).account_of(a) || (old(
                            self,
                        ).account_of(a) is None && self.account_of(a) == Some(account)));
                    }
                    assert forall|a: Address| #[trigger]
                        self.balance_of(a) == old(self).balance_of(a) by {
                        assert(self.account_of(a) == old(self).account_of(a) || (old(
                            self,
                        ).account_of(a) is None && self.account_of(a) == Some(account)));
                    }
                    assert forall|a: Address| #[trigger]
                        self.lock_of(a) == old(self).lock_of(a) by {
                        assert(self.account_of(a) == old(self).account_of(a) || (old(
                            self,
                        ).account_of(a) is None && self.account_of(a) == Some(account)));
                    }
                    assert forall|a: Address, k: U256| #[trigger]
                        self.storage_of(a, k) == old(self).storage_of(a, k) by {
                        assert(self.account_of(a) == old(self).account_of(a) || (old(
                            self,
                        ).account_of(a) is None && self.account_of(a) == Some(account)));
                    }
                    lemma_first_account_pushed(before, account, *address, 0);
                }
                self.accounts.len() - 1
            },
        }
    }
}

/// What a change to the one account that stands for `address` does to the
/// search for any address: nothing; and that account is found for `address`
/// alone.
pub proof fn lemma_accounts_updated(
    before: Seq<Account>,
    after: Seq<Account>,
    at: int,
    address: Address,
)
    requires
        0 <= at < before.len(),
        at == first_account(before, address, 0),
        after.len() == before.len(),
        after[at].address == before[at].address,
        forall|j: int| 0 <= j < before.len() && j != at ==> after[j] == before[j],
    ensures
        forall|other: Address| #[trigger]
            first_account(after, other, 0) == first_account(before, other, 0),
        forall|other: Address|
            other@ == address@ ==> #[trigger] first_account(before, other, 0) == at,
        forall|other: Address|
            other@ != address@ ==> #[trigger] first_account(before, other, 0) != at,
{
    assert forall|other: Address| #[trigger]
        first_account(after, other, 0) == first_account(before, other, 0) by {
        lemma_first_account_by_addresses(before, after, other, 0);
    }
    assert forall|other: Address| other@ == address@ implies #[trigger] first_account(
        before,
        other,
        0,
    ) == at by {
        crate::types::lemma_address_ext(other, address);
    }
    assert forall|other: Address| other@ != address@ implies #[trigger] first_account(
        before,
        other,
        0,
    ) != at by {
        lemma_first_account_bounds(before, address, 0);
        lemma_first_account_bounds(before, other, 0);
    }
}

/// What a change to the one account that stands for `address` does to the
/// reads: those of every other address stay, and those of `address` go by the
/// changed account.
pub proof fn lemma_store_updated(
    before: ProgramAccountStorage,
    after: ProgramAccountStorage,
    at: int,
    address: Address,
)
    requires
        0 <= at < before.accounts@.len(),
        at == first_account(before.accounts@, address, 0),
        after.accounts@.len() == before.accounts@.len(),
        after.accounts@[at].address == before.accounts@[at].address,
        forall|j: int|
            0 <= j < before.accounts@.len() && j != at ==> after.accounts@[j]
                == before.accounts@[j],
    ensures
        forall|a: Address|
            #![trigger after.account_of(a)]
            #![trigger before.account_of(a)]
            a@ != address@ ==> after.account_of(a) == before.account_of(a),
        forall|a: Address|
            #![trigger after.account_of(a)]
            #![trigger before.account_of(a)]
            a@ == address@ ==> after.account_of(a) == Some(after.accounts@[at])
                && before.account_of(a) == Some(before.accounts@[at]),
{
    lemma_accounts_updated(before.accounts@, after.accounts@, at, address);
    assert forall|a: Address|
        #![trigger after.account_of(a)]
        #![trigger before.account_of(a)]
        a@ != address@ implies after.account_of(a) == before.account_of(a) by {
        let i = first_account(before.accounts@, a, 0);
        lemma_first_account_bounds(before.accounts@, a, 0);
        assert(first_account(after.accounts@, a, 0) == i);
        assert(i != at);
    }
    assert forall|a: Address|
        #![trigger after.account_of(a)]
        #![trigger before.account_of(a)]
        a@ == address@ implies after.account_of(a) == Some(after.accounts@[at])
        && before.account_of(a) == Some(before.accounts@[at]) by {
        assert(first_account(after.accounts@, a, 0) == first_account(before.accounts@, a, 0));
        assert(first_account(before.accounts@, a, 0) == at);
    }
}

/// Whether two signatures are the same.
pub fn same_bytes(a: &[u8; 65], b: &[u8; 65]) -> (r: bool)
    ensures
        r == (a@ == b@),
{
    let mut i: usize = 0;
    while i < 65
        invariant
            i <= 65,
            forall|j: int| 0 <= j < i ==> a@[j] == b@[j],
        decreases 65 - i,
    {
        if a[i] != b[i] {
            return false;
        }
        i += 1;
    }
    proof {
        assert(a@ =~= b@);
    }
    true
}

/// The place of the first pair with the key.
fn find_slot(slots: &Vec<(U256, U256)>, key: &U256) -> (r: Option<usize>)
    ensures
        r is Some <==> first_slot(slots@, *key, 0) < slots@.len(),
        r is Some ==> r.unwrap() == first_slot(slots@, *key, 0),
{
    let mut i: usize = 0;
    while i < slots.len()
        invariant
            i <= slots@.len(),
            first_slot(slots@, *key, 0) == first_slot(slots@, *key, i as int),
        decreases slots@.len() - i,
    {
        if slots[i].0 == *key {
            return Some(i);
        }
        i += 1;
    }
    None
}

impl ProgramAccountStorage {
    /// Whether this store reads what `before` reads, but for the balance of
    /// `address`, which is `balance`.
    pub open spec fn balance_set(
        &self,
        before: &ProgramAccountStorage,
        address: Address,
        balance: nat,
    ) -> bool {
        &&& self.same_contracts(before)
        &&& self.same_locks(before)
        &&& forall|a: Address| (#[trigger] self.balance_of(a))@ == (if a@ == address@ {
            balance
        } else {
            before.balance_of(a)@
        })
    }

    /// Takes `value` from the balance of `address`, or all of it where it
    /// holds less.
    pub fn debit(&mut self, address: &Address, value: U256)
        ensures
            final(self).balance_set(
                old(self),
                *address,
                saturating_difference(old(self).balance_of(*address)@, value@),
            ),
    {
        let i = self.entry(address);
        let ghost mid = *self;
        let held = self.accounts[i].balance;
        self.accounts[i].balance = held.saturating_sub(value);
        proof {
            lemma_store_updated(mid, *self, i as int, *address);
            self.lemma_balance_changed(mid, *old(self), *address);
        }
    }

    /// Adds `value` to the balance of `address`, up to the largest value.
    pub fn credit(&mut self, address: &Address, value: U256)
        ensures
            final(self).balance_set(
                old(self),
                *address,
                saturating_sum(old(self).balance_of(*address)@, value@),
            ),
    {
        let i = self.entry(address);
        let ghost mid = *self;
        let held = self.accounts[i].balance;
        self.accounts[i].balance = held.saturating_add(value);
        proof {
            lemma_store_updated(mid, *self, i as int, *address);
            self.lemma_balance_changed(mid, *old(self), *address);
        }
    }

    /// A store that differs from `mid` in the balance of `address` alone,
    /// where `mid` reads as `before` does, reads as `before` but for that
    /// balance.
    proof fn lemma_balance_changed(
        self,
        mid: ProgramAccountStorage,
        before: ProgramAccountStorage,
        address: Address,
    )
        requires
            self.chain_id == mid.chain_id,
            mid.same_contracts(&before),
            mid.same_balances(&before),
            mid.same_locks(&before),
            forall|a: Address|
                #![trigger self.account_of(a)]
                #![trigger mid.account_of(a)]
                a@ != address@ ==> self.account_of(a) == mid.account_of(a),
            forall|a: Address|
                #![trigger self.account_of(a)]
                #![trigger mid.account_of(a)]
                a@ == address@ ==> self.account_of(a) is Some && mid.account_of(a) is Some
                    && self.account_of(a).unwrap().nonce == mid.account_of(a).unwrap().nonce
                    && self.account_of(a).unwrap().code == mid.account_of(a).unwrap().code
                    && self.account_of(a).unwrap().storage == mid.account_of(a).unwrap().storage
                    && self.account_of(a).unwrap().lock == mid.account_of(
                    a,
                ).unwrap().lock,
        ensures
            self.balance_set(&before, address, self.balance_of(address)@),
    {
        assert forall|a: Address|
            #![trigger self.nonce_of(a)]
            #![trigger before.nonce_of(a)]
            self.nonce_of(a) == before.nonce_of(a) by {
            assert(mid.nonce_of(a) == before.nonce_of(a));
        }
        assert forall|a: Address|
            #![trigger self.code_of(a)]
            #![trigger before.code_of(a)]
            self.code_of(a) == before.code_of(a) by {
            assert(mid.code_of(a) == before.code_of(a));
        }
        assert forall|a: Address, k: U256|
            #![trigger self.storage_of(a, k)]
            #![trigger before.storage_of(a, k)]
            self.storage_of(a, k) == before.storage_of(a, k) by {
            assert(mid.storage_of(a, k) == before.storage_of(a, k));
        }
        assert forall|a: Address|
            #![trigger self.lock_of(a)]
            #![trigger before.lock_of(a)]
            self.lock_of(a) == before.lock_of(a) by {
            assert(mid.lock_of(a) == before.lock_of(a));
        }
        assert forall|a: Address| (#[trigger] self.balance_of(a))@ == (if a@ == address@ {
            self.balance_of(address)@
        } else {
            before.balance_of(a)@
        }) by {
            if a@ == address@ {
                crate::types::lemma_address_ext(a, address);
            } else {
                assert(mid.balance_of(a) == before.balance_of(a));
            }
        }
    }

    /// A store that differs from `mid` in the account of `address` alone,
    /// where `mid` reads as `before` does, reads as `before` for every other
    /// address.
    proof fn lemma_others_unchanged(
        self,
        mid: ProgramAccountStorage,
        before: ProgramAccountStorage,
        address: Address,
    )
        requires
            self.chain_id == mid.chain_id,
            mid.same_contracts(&before),
            mid.same_balances(&before),
            mid.same_locks(&before),
            forall|a: Address|
                #![trigger self.account_of(a)]
                #![trigger mid.account_of(a)]
                a@ != address@ ==> self.account_of(a) == mid.account_of(a),
        ensures
            self.chain_id == before.chain_id,
            forall|a: Address|
                #![trigger self.nonce_of(a)]
                a@ != address@ ==> self.nonce_of(a) == before.nonce_of(a),
            forall|a: Address|
                #![trigger self.balance_of(a)]
                a@ != address@ ==> self.balance_of(a) == before.balance_of(a),
            forall|a: Address|
                #![trigger self.code_of(a)]
                a@ != address@ ==> self.code_of(a) == before.code_of(a),
            forall|a: Address|
                #![trigger self.lock_of(a)]
                a@ != address@ ==> self.lock_of(a) == before.lock_of(a),
            forall|a: Address, k: U256|
                #![trigger self.storage_of(a, k)]
                a@ != address@ ==> self.storage_of(a, k) == before.storage_of(a, k),
    {
        assert forall|a: Address| #![trigger self.nonce_of(a)] a@ != address@ implies self.nonce_of(
            a,
        ) == before.nonce_of(a) by {
            assert(mid.nonce_of(a) == before.nonce_of(a));
        }
        assert forall|a: Address|
            #![trigger self.balance_of(a)]
            a@ != address@ implies self.balance_of(a) == before.balance_of(a) by {
            assert(mid.balance_of(a) == before.balance_of(a));
        }
        assert forall|a: Address| #![trigger self.code_of(a)] a@ != address@ implies self.code_of(
            a,
        ) == before.code_of(a) by {
            assert(mid.code_of(a) == before.code_of(a));
        }
        assert forall|a: Address| #![trigger self.lock_of(a)] a@ != address@ implies self.lock_of(
            a,
        ) == before.lock_of(a) by {
            assert(mid.lock_of(a) == before.lock_of(a));
        }
        assert forall|a: Address, k: U256|
            #![trigger self.storage_of(a, k)]
            a@ != address@ implies self.storage_of(a, k) == before.storage_of(a, k) by {
            assert(mid.storage_of(a, k) == before.storage_of(a, k));
        }
    }

    /// A debit of `source` and then a credit of `target` make the transfer.
    proof fn lemma_transfer_stepped(
        self,
        mid: ProgramAccountStorage,
        before: ProgramAccountStorage,
        source: Address,
        target: Address,
        value: U256,
    )
        requires
            mid.balance_set(
                &before,
                source,
                saturating_difference(before.balance_of(source)@, value@),
            ),
            self.balance_set(&mid, target, saturating_sum(mid.balance_of(target)@, value@)),
        ensures
            self.stepped(&before, Action::Transfer { source, target, value }),
    {
        let action = Action::Transfer { source, target, value };
        assert forall|a: Address| #[trigger]
            self.nonce_of(a) == nonce_step(action, a, before.nonce_of(a)) by {
            assert(mid.nonce_of(a) == before.nonce_of(a));
        }
        assert forall|a: Address| #[trigger]
            self.code_of(a) == code_step(action, a, before.code_of(a)) by {
            assert(mid.code_of(a) == before.code_of(a));
        }
        assert forall|a: Address, k: U256| #[trigger]
            self.storage_of(a, k) == storage_step(action, a, k, before.storage_of(a, k)) by {
            assert(mid.storage_of(a, k) == before.storage_of(a, k));
        }
        assert forall|a: Address|
            #![trigger self.lock_of(a)]
            #![trigger before.lock_of(a)]
            self.lock_of(a) == before.lock_of(a) by {
            assert(mid.lock_of(a) == before.lock_of(a));
        }
        assert forall|a: Address| (#[trigger] self.balance_of(a))@ == balance_step(
            action,
            a,
            before.balance_of(a)@,
        ) by {
            if a@ == source@ {
                crate::types::lemma_address_ext(a, source);
            }
            if a@ == target@ {
                crate::types::lemma_address_ext(a, target);
            }
            assert(mid.balance_of(a)@ == (if a@ == source@ {
                saturating_difference(before.balance_of(source)@, value@)
            } else {
                before.balance_of(a)@
            }));
        }
    }

    /// Applies one action to the store.
    pub fn apply_action(&mut self, action: &Action)
        ensures
            final(self).stepped(old(self), *action),
    {
        match action {
            Action::Transfer { source, target, value } => {
                self.debit(source, *value);
                let ghost mid = *self;
                self.credit(target, *value);
                proof {
                    self.lemma_transfer_stepped(mid, *old(self), *source, *target, *value);
                }
            },
            Action::SetStorage { address, key, value } => {
                let i = self.entry(address);
                let ghost mid = *self;
                match find_slot(&self.accounts[i].storage, key) {
                    Some(j) => {
                        proof {
                            lemma_first_slot_bounds(mid.accounts@[i as int].storage@, *key, 0);
                        }
                        self.accounts[i].storage[j].1 = *value;
                        proof {
                            assert(self.accounts@[i as int].storage@
                                =~= mid.accounts@[i as int].storage@.update(
                                j as int,
                                (*key, *value),
                            ));
                        }
                    },
                    None => {
                        self.accounts[i].storage.push((*key, *value));
                    },
                }
                proof {
                    lemma_store_updated(mid, *self, i as int, *address);
                    self.lemma_others_unchanged(mid, *old(self), *address);
                    assert forall|a: Address| #[trigger]
                        self.nonce_of(a) == nonce_step(*action, a, old(self).nonce_of(a)) by {
                        assert(mid.nonce_of(a) == old(self).nonce_of(a));
                    }
                    assert forall|a: Address| (#[trigger] self.balance_of(a))@ == balance_step(
                        *action,
                        a,
                        old(self).balance_of(a)@,
                    ) by {
                        assert(mid.balance_of(a) == old(self).balance_of(a));
                    }
                    assert forall|a: Address| #[trigger]
                        self.code_of(a) == code_step(*action, a, old(self).code_of(a)) by {
                        assert(mid.code_of(a) == old(self).code_of(a));
                    }
                    assert forall|a: Address|
                        #![trigger self.lock_of(a)]
                        #![trigger old(self).lock_of(a)]
                        self.lock_of(a) == old(self).lock_of(a) by {
                        assert(mid.lock_of(a) == old(self).lock_of(a));
                    }
                    assert forall|a: Address, k: U256| #[trigger]
                        self.storage_of(a, k) == storage_step(
                            *action,
                            a,
                            k,
                            old(self).storage_of(a, k),
                        ) by {
                        assert(mid.storage_of(a, k) == old(self).storage_of(a, k));
                        if a@ == address@ {
                            assert(self.account_of(a) == Some(self.accounts@[i as int]));
                            assert(mid.account_of(a) == Some(mid.accounts@[i as int]));
                            lemma_slot_written(
                                mid.accounts@[i as int].storage@,
                                self.accounts@[i as int].storage@,
                                *key,
                                *value,
                                k,
                            );
                        }
                    }
                }
            },
            Action::SetCode { address, code } => {
                let i = self.entry(address);
                let ghost mid = *self;
                self.accounts[i].code = code.clone();
                proof {
                    assert(self.accounts@[i as int].code@ =~= code@);
                    lemma_store_updated(mid, *self, i as int, *address);
                    self.lemma_others_unchanged(mid, *old(self), *address);
                    self.lemma_one_changed(mid, *old(self), *address, i as int, *action);
                }
            },
            Action::IncrementNonce { address } => {
                let i = self.entry(address);
                let ghost mid = *self;
                let nonce: u64 = self.accounts[i].nonce;
                if nonce < u64::MAX {
                    self.accounts[i].nonce = nonce + 1;
                }
                proof {
                    lemma_store_updated(mid, *self, i as int, *address);
                    self.lemma_others_unchanged(mid, *old(self), *address);
                    self.lemma_one_changed(mid, *old(self), *address, i as int, *action);
                }
            },
            Action::SelfDestruct { address } => {
                let i = self.entry(address);
                let ghost mid = *self;
                self.accounts[i].code = Vec::new();
                self.accounts[i].storage = Vec::new();
                proof {
                    assert(self.accounts@[i as int].code@ =~= Seq::<u8>::empty());
                    lemma_store_updated(mid, *self, i as int, *address);
                    self.lemma_others_unchanged(mid, *old(self), *address);
                    self.lemma_one_changed(mid, *old(self), *address, i as int, *action);
                }
            },
            Action::EventLog { .. } => {},
        }
    }

    /// Where the account at `at`, which stands for `address`, holds what the
    /// action makes of what it held in `mid`, and every other address reads
    /// as before, the store reads everywhere what `before` reads after the
    /// action.
    proof fn lemma_one_changed(
        self,
        mid: ProgramAccountStorage,
        before: ProgramAccountStorage,
        address: Address,
        at: int,
        action: Action,
    )
        requires
            0 <= at < self.accounts@.len(),
            at < mid.accounts@.len(),
            self.chain_id == before.chain_id,
            mid.same_contracts(&before),
            mid.same_balances(&before),
            mid.same_locks(&before),
            forall|a: Address|
                #![trigger self.account_of(a)]
                #![trigger mid.account_of(a)]
                a@ == address@ ==> self.account_of(a) == Some(self.accounts@[at])
                    && mid.account_of(a) == Some(mid.accounts@[at]),
            forall|a: Address|
                #![trigger self.nonce_of(a)]
                a@ != address@ ==> self.nonce_of(a) == before.nonce_of(a),
            forall|a: Address|
                #![trigger self.balance_of(a)]
                a@ != address@ ==> self.balance_of(a) == before.balance_of(a),
            forall|a: Address|
                #![trigger self.code_of(a)]
                a@ != address@ ==> self.code_of(a) == before.code_of(a),
            forall|a: Address|
                #![trigger self.lock_of(a)]
                a@ != address@ ==> self.lock_of(a) == before.lock_of(a),
            forall|a: Address, k: U256|
                #![trigger self.storage_of(a, k)]
                a@ != address@ ==> self.storage_of(a, k) == before.storage_of(a, k),
            action is SetCode || action is IncrementNonce || action is SelfDestruct,
            action matches Action::SetCode { address: touched, .. } ==> touched@ == address@,
            action matches Action::IncrementNonce { address: touched } ==> touched@ == address@,
            action matches Action::SelfDestruct { address: touched } ==> touched@ == address@,
            self.accounts@[at].lock == mid.accounts@[at].lock,
            self.accounts@[at].balance == mid.accounts@[at].balance,
            self.accounts@[at].nonce == nonce_step(action, address, mid.accounts@[at].nonce),
            self.accounts@[at].code@ == code_step(action, address, mid.accounts@[at].code@),
            forall|k: U256|
                slot_value(self.accounts@[at].storage@, k) == storage_step(
                    action,
                    address,
                    k,
                    #[trigger] slot_value(mid.accounts@[at].storage@, k),
                ),
        ensures
            self.stepped(&before, action),
    {
        assert forall|a: Address| #[trigger]
            self.nonce_of(a) == nonce_step(action, a, before.nonce_of(a)) by {
            assert(mid.nonce_of(a) == before.nonce_of(a));
            if a@ == address@ {
                crate::types::lemma_address_ext(a, address);
            }
        }
        assert forall|a: Address| (#[trigger] self.balance_of(a))@ == balance_step(
            action,
            a,
            before.balance_of(a)@,
        ) by {
            assert(mid.balance_of(a) == before.balance_of(a));
        }
        assert forall|a: Address| #[trigger]
            self.code_of(a) == code_step(action, a, before.code_of(a)) by {
            assert(mid.code_of(a) == before.code_of(a));
            if a@ == address@ {
                crate::types::lemma_address_ext(a, address);
            }
        }
        assert forall|a: Address|
            #![trigger self.lock_of(a)]
            #![trigger before.lock_of(a)]
            self.lock_of(a) == before.lock_of(a) by {
            assert(mid.lock_of(a) == before.lock_of(a));
        }
        assert forall|a: Address, k: U256| #[trigger]
            self.storage_of(a, k) == storage_step(action, a, k, before.storage_of(a, k)) by {
            assert(mid.storage_of(a, k) == before.storage_of(a, k));
            if a@ == address@ {
                crate::types::lemma_address_ext(a, address);
                assert(mid.storage_of(a, k) == slot_value(mid.accounts@[at].storage@, k));
            }
        }
    }

    /// Commits a log of actions: applies them in order. Afterwards the store
    /// reads what an overlay with this log read in front of it.
    pub fn apply_state_change(&mut self, actions: &Vec<Action>)
        ensures
            final(self).applied(old(self), actions@),
    {
        let mut i: usize = 0;
        while i < actions.len()
            invariant
                i <= actions@.len(),
                self.applied(old(self), actions@.take(i as int)),
            decreases actions@.len() - i,
        {
            let ghost mid = *self;
            self.apply_action(&actions[i]);
            proof {
                let done = actions@.take(i as int);
                let next = actions@.take(i + 1);
                assert(next.drop_last() =~= done);
                assert(next.last() == actions@[i as int]);
                assert(self.stepped(&mid, actions@[i as int]));
                assert forall|a: Address| #[trigger]
                    self.nonce_of(a) == nonce_after(next, a, old(self).nonce_of(a)) by {
                    assert(mid.nonce_of(a) == nonce_after(done, a, old(self).nonce_of(a)));
                }
                assert forall|a: Address| (#[trigger] self.balance_of(a))@ == balance_after(
                    next,
                    a,
                    old(self).balance_of(a)@,
                ) by {
                    assert(mid.balance_of(a)@ == balance_after(done, a, old(self).balance_of(a)@));
                }
                assert forall|a: Address| #[trigger]
                    self.code_of(a) == code_after(next, a, old(self).code_of(a)) by {
                    assert(mid.code_of(a) == code_after(done, a, old(self).code_of(a)));
                }
                assert forall|a: Address, k: U256| #[trigger]
                    self.storage_of(a, k) == storage_after(
                        next,
                        a,
                        k,
                        old(self).storage_of(a, k),
                    ) by {
                    assert(mid.storage_of(a, k) == storage_after(
                        done,
                        a,
                        k,
                        old(self).storage_of(a, k),
                    ));
                }
                assert forall|a: Address| #[trigger] self.lock_of(a) == old(self).lock_of(a) by {
                    assert(mid.lock_of(a) == old(self).lock_of(a));
                }
            }
            i += 1;
        }
        proof {
            assert(actions@.take(i as int) =~= actions@);
        }
    }

    /// Moves a gas payment of `value` from `source` to `target`, unless
    /// `source` holds less; then nothing changes.
    pub fn transfer_gas_payment(&mut self, source: Address, target: Address, value: U256) -> (r:
        Result<(), Error>)
        ensures
            r is Ok <==> old(self).balance_of(source)@ >= value@,
            r is Err ==> r.unwrap_err() == Error::InsufficientFunds && *final(self) == *old(self),
            r is Ok ==> final(self).stepped(old(self), Action::Transfer { source, target, value }),
    {
        let held = self.balance(&source);
        if held.lt(&value) {
            return Err(Error::InsufficientFunds);
        }
        self.debit(&source, value);
        let ghost mid = *self;
        self.credit(&target, value);
        proof {
            self.lemma_transfer_stepped(mid, *old(self), source, target, value);
        }
        Ok(())
    }

    /// Fails if an account of the store is locked.
    pub fn check_for_blocked_accounts(&self) -> (r: Result<(), Error>)
        ensures
            r is Ok <==> !self.any_blocked(),
            r is Err ==> r.unwrap_err() == Error::AccountBlocked,
    {
        let mut i: usize = 0;
        while i < self.accounts.len()
            invariant
                i <= self.accounts@.len(),
                forall|j: int| 0 <= j < i ==> (#[trigger] self.accounts@[j]).lock is None,
            decreases self.accounts@.len() - i,
        {
            if self.accounts[i].lock.is_some() {
                return Err(Error::AccountBlocked);
            }
            i += 1;
        }
        Ok(())
    }

    /// Fails unless the session of the transaction with the signature
    /// `holder` holds the lock on every account of the store.
    pub fn check_accounts_held(&self, holder: &[u8; 65]) -> (r: Result<(), Error>)
        ensures
            r is Ok <==> self.all_held_by(holder@),
            r is Err ==> r.unwrap_err() == Error::AccountBlocked,
    {
        let mut i: usize = 0;
        while i < self.accounts.len()
            invariant
                i <= self.accounts@.len(),
                forall|j: int| 0 <= j < i ==> held_by((#[trigger] self.accounts@[j]).lock, holder@),
            decreases self.accounts@.len() - i,
        {
            match &self.accounts[i].lock {
                Some(signature) => {
                    if !same_bytes(signature, holder) {
                        return Err(Error::AccountBlocked);
                    }
                },
                None => {
                    return Err(Error::AccountBlocked);
                },
            }
            i += 1;
        }
        Ok(())
    }

    /// Locks every account of the store for the transaction with the given
    /// signature, or releases every one where none is given.
    pub fn block_accounts(&mut self, holder: Option<[u8; 65]>)
        ensures
            final(self).same_contracts(old(self)),
            final(self).same_balances(old(self)),
            final(self).accounts@.len() == old(self).accounts@.len(),
            forall|i: int|
                0 <= i < final(self).accounts@.len() ==> (#[trigger] final(self).accounts@[i]).lock
                    == holder,
            forall|i: int|
                0 <= i < final(self).accounts@.len() ==> (#[trigger] final(self).accounts@[i]).address
                    == old(self).accounts@[i].address,
            holder is None ==> !final(self).any_blocked(),
            holder is Some ==> final(self).all_held_by(holder.unwrap()@),
    {
        let mut i: usize = 0;
        while i < self.accounts.len()
            invariant
                i <= self.accounts@.len(),
                self.chain_id == old(self).chain_id,
                self.accounts@.len() == old(self).accounts@.len(),
                forall|j: int| 0 <= j < i ==> (#[trigger] self.accounts@[j]).lock == holder,
                forall|j: int|
                    0 <= j < self.accounts@.len() ==> {
                        &&& (#[trigger] self.accounts@[j]).address == old(self).accounts@[j].address
                        &&& self.accounts@[j].balance == old(self).accounts@[j].balance
                        &&& self.accounts@[j].nonce == old(self).accounts@[j].nonce
                        &&& self.accounts@[j].code == old(self).accounts@[j].code
                        &&& self.accounts@[j].storage == old(self).accounts@[j].storage
                    },
            decreases self.accounts@.len() - i,
        {
            self.accounts[i].lock = holder;
            i += 1;
        }
        proof {
            assert forall|a: Address| #[trigger]
                first_account(self.accounts@, a, 0) == first_account(old(self).accounts@, a, 0) by {
                lemma_first_account_by_addresses(old(self).accounts@, self.accounts@, a, 0);
            }
            assert forall|a: Address| #[trigger] self.nonce_of(a) == old(self).nonce_of(a) by {
                lemma_first_account_bounds(self.accounts@, a, 0);
            }
            assert forall|a: Address| #[trigger] self.code_of(a) == old(self).code_of(a) by {
                lemma_first_account_bounds(self.accounts@, a, 0);
            }
            assert forall|a: Address| #[trigger] self.balance_of(a) == old(self).balance_of(a) by {
                lemma_first_account_bounds(self.accounts@, a, 0);
            }
            assert forall|a: Address, k: U256| #[trigger]
                self.storage_of(a, k) == old(self).storage_of(a, k) by {
                lemma_first_account_bounds(self.accounts@, a, 0);
            }
        }
    }
}

impl AccountStorage for ProgramAccountStorage {
    open spec fn spec_chain_id(&self) -> u64 {
        self.chain_id
    }

    open spec fn spec_nonce(&self, address: Address) -> u64 {
        self.nonce_of(address)
    }

    open spec fn spec_balance(&self, address: Address) -> U256 {
        self.balance_of(address)
    }

    open spec fn spec_code(&self, address: Address) -> Seq<u8> {
        self.code_of(address)
    }

    open spec fn spec_storage(&self, address: Address, key: U256) -> U256 {
        self.storage_of(address, key)
    }

    fn chain_id(&self) -> (r: u64) {
        self.chain_id
    }

    fn nonce(&self, address: &Address) -> (r: u64) {
        match self.find(address) {
            Some(i) => self.accounts[i].nonce,
            None => 0,
        }
    }

    fn balance(&self, address: &Address) -> (r: U256) {
        match self.find(address) {
            Some(i) => self.accounts[i].balance,
            None => U256::zero_word(),
        }
    }

    fn code(&self, address: &Address) -> (r: Vec<u8>) {
        match self.find(address) {
            Some(i) => self.accounts[i].code.clone(),
            None => Vec::new(),
        }
    }

    fn storage(&self, address: &Address, key: &U256) -> (r: U256) {
        match self.find(address) {
            Some(i) => match find_slot(&self.accounts[i].storage, key) {
                Some(j) => self.accounts[i].storage[j].1,
                None => U256::zero_word(),
            },
            None => U256::zero_word(),
        }
    }
}

} // verus!
