//! The durable account store, as the overlay reads it.

pub mod program;

pub use program::{Account, ProgramAccountStorage};

use crate::types::Address;
use crate::u256::U256;
use vstd::prelude::*;

verus! {

/// A change to the size of a durable account that committing a log of
/// actions asks of the host.
#[derive(Clone, Copy, Debug, PartialEq, Eq, Structural)]
pub enum AccountOperation {
    /// A new account of `space` bytes.
    Create { space: usize },
    /// An existing account of `from` bytes grows to `to` bytes.
    Resize { from: usize, to: usize },
}

/// The operations of one commit, by account: no address has two.
#[derive(Clone, Debug)]
pub struct AccountsOperations {
    /// The operations, each with the address of its account, in the order in
    /// which the addresses were first given one.
    pub entries: Vec<(Address, AccountOperation)>,
}

/// The first entry at or after `from` with the address, or the number of
/// entries if there is none.
pub open spec fn first_entry(
    entries: Seq<(Address, AccountOperation)>,
    address: Address,
    from: int,
) -> int
    decreases entries.len() - from,
{
    if from >= entries.len() {
        entries.len() as int
    } else if entries[from].0@ == address@ {
        from
    } else {
        first_entry(entries, address, from + 1)
    }
}

/// Whether no two entries have the same address.
pub open spec fn distinct_addresses(entries: Seq<(Address, AccountOperation)>) -> bool {
    forall|i: int, j: int| 0 <= i < j < entries.len() ==> entries[i].0@ != entries[j].0@
}

/// Where the first entry with an address lies; an address that is found
/// nowhere is the address of no entry.
pub proof fn lemma_first_entry(
    entries: Seq<(Address, AccountOperation)>,
    address: Address,
    from: int,
)
    requires
        0 <= from <= entries.len(),
    ensures
        from <= first_entry(entries, address, from) <= entries.len(),
        first_entry(entries, address, from) < entries.len() ==> entries[first_entry(
            entries,
            address,
            from,
        )].0@ == address@,
        forall|j: int|
            from <= j < first_entry(entries, address, from) ==> entries[j].0@ != address@,
    decreases entries.len() - from,
{
    if from < entries.len() && entries[from].0@ != address@ {
        lemma_first_entry(entries, address, from + 1);
    }
}

impl AccountsOperations {
    /// No address has two operations.
    pub open spec fn wf(&self) -> bool {
        distinct_addresses(self.entries@)
    }

    /// The operation of the account with the address, if it has one.
    pub open spec fn spec_get(&self, address: Address) -> Option<AccountOperation> {
        let at = first_entry(self.entries@, address, 0);
        if at < self.entries@.len() {
            Some(self.entries@[at].1)
        } else {
            None
        }
    }

    /// No operations.
    pub fn new() -> (r: AccountsOperations)
        ensures
            r.wf(),
            r.entries@.len() == 0,
    {
        AccountsOperations { entries: Vec::new() }
    }

    /// The number of accounts with an operation.
    pub fn len(&self) -> (r: usize)
        ensures
            r == self.entries@.len(),
    {
        self.entries.len()
    }

    /// The place of the entry with the address.
    fn find(&self, address: &Address) -> (r: Option<usize>)
        ensures
            r is Some <==> first_entry(self.entries@, *address, 0) < self.entries@.len(),
            r is Some ==> r.unwrap() == first_entry(self.entries@, *address, 0),
    {
        let mut i: usize = 0;
        while i < self.entries.len()
            invariant
                i <= self.entries@.len(),
                first_entry(self.entries@, *address, 0) == first_entry(
                    self.entries@,
                    *address,
                    i as int,
                ),
            decreases self.entries@.len() - i,
        {
            if self.entries[i].0.equals(address) {
                return Some(i);
            }
            i += 1;
        }
        None
    }

    /// The operation of the account with the address, if it has one.
    pub fn get(&self, address: &Address) -> (r: Option<AccountOperation>)
        ensures
            r == self.spec_get(*address),
    {
        match self.find(address) {
            Some(i) => Some(self.entries[i].1),
            None => None,
        }
    }

    /// Gives the account with the address the operation, in place of the one
    /// it had, and returns the one it had. An account without an operation
    /// is entered behind the others.
    pub fn insert(&mut self, address: Address, operation: AccountOperation) -> (r: Option<
        AccountOperation,
    >)
        requires
            old(self).wf(),
        ensures
            final(self).wf(),
            r == old(self).spec_get(address),
            r is Some ==> final(self).entries@ == old(self).entries@.update(
                first_entry(old(self).entries@, address, 0),
                (old(self).entries@[first_entry(old(self).entries@, address, 0)].0, operation),
            ),
            r is None ==> final(self).entries@ == old(self).entries@.push((address, operation)),
            final(self).spec_get(address) == Some(operation),
    {
        proof {
            lemma_first_entry(self.entries@, address, 0);
        }
        match self.find(&address) {
            Some(i) => {
                let had = self.entries[i].1;
                self.entries[i].1 = operation;
                proof {
                    let before = old(self).entries@;
                    let after = self.entries@;
                    assert(after =~= before.update(i as int, (before[i as int].0, operation)));
                    assert forall|k: int| 0 <= k < before.len() implies after[k].0
                        == before[k].0 by {}
                    lemma_first_entry(after, address, 0);
                    assert(first_entry(after, address, 0) == i) by {
                        if first_entry(after, address, 0) < i {
                            assert(before[first_entry(after, address, 0)].0@ == address@);
                        }
                    }
                }
                Some(had)
            },
            None => {
                self.entries.push((address, operation));
                proof {
                    let before = old(self).entries@;
                    let after = self.entries@;
                    assert(after == before.push((address, operation)));
                    lemma_first_entry(after, address, 0);
                    let found = first_entry(after, address, 0);
                    assert(first_entry(before, address, 0) == before.len());
                    if found < before.len() {
                        assert(after[found] == before[found]);
                        assert(before[found].0@ != address@);
                    }
                    if found > before.len() {
                        assert(after[before.len() as int].0@ != address@);
                    }
                    assert(found == before.len());
                    assert forall|i: int, j: int| 0 <= i < j < after.len() implies after[i].0@
                        != after[j].0@ by {
                        if j < before.len() {
                            assert(after[i] == before[i] && after[j] == before[j]);
                        } else {
                            assert(after[i] == before[i]);
                        }
                    }
                }
                None
            },
        }
    }
}

/// Read access to durable accounts. An account that the store does not hold
/// reads as empty: nonce and balance zero, no code, every slot zero.
pub trait AccountStorage {
    /// The chain that the store belongs to.
    spec fn spec_chain_id(&self) -> u64;

    /// Reads the chain that the store belongs to.
    fn chain_id(&self) -> (r: u64)
        ensures
            r == self.spec_chain_id(),
    ;

    /// The nonce that the store holds for `address`.
    spec fn spec_nonce(&self, address: Address) -> u64;

    /// The balance that the store holds for `address`.
    spec fn spec_balance(&self, address: Address) -> U256;

    /// The code that the store holds for `address`.
    spec fn spec_code(&self, address: Address) -> Seq<u8>;

    /// The value that the store holds in slot `key` of `address`.
    spec fn spec_storage(&self, address: Address, key: U256) -> U256;

    /// Reads the nonce of `address`.
    fn nonce(&self, address: &Address) -> (r: u64)
        ensures
            r == self.spec_nonce(*address),
    ;

    /// Reads the balance of `address`.
    fn balance(&self, address: &Address) -> (r: U256)
        ensures
            r == self.spec_balance(*address),
    ;

    /// Reads the code of `address`.
    fn code(&self, address: &Address) -> (r: Vec<u8>)
        ensures
            r@ == self.spec_code(*address),
    ;

    /// Reads slot `key` of `address`.
    fn storage(&self, address: &Address, key: &U256) -> (r: U256)
        ensures
            r == self.spec_storage(*address, *key),
    ;
}

} // verus!
