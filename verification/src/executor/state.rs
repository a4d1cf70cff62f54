//! The transactional overlay: pending actions in front of durable storage.

use crate::account_storage::AccountStorage;
use crate::error::Error;
use crate::executor::action::{
    balance_after, balance_step, code_after, code_step, nonce_after, nonce_step, storage_after,
    storage_step, Action,
};
use crate::types::Address;
use crate::u256::U256;
use vstd::prelude::*;

verus! {

/// Buffers every mutation of one invocation as an ordered log of actions.
/// Reads see the log first and the durable store behind it; the store itself
/// is never written. Nested calls open scopes that keep or drop their part of
/// the log.
pub struct ExecutorState<'a, B: AccountStorage> {
    /// The durable store that reads fall through to.
    pub backend: &'a B,
    /// The pending actions, oldest first.
    pub actions: Vec<Action>,
    /// For each open scope, the length of the log when it was opened.
    pub scopes: Vec<usize>,
}

impl<'a, B: AccountStorage> ExecutorState<'a, B> {
    /// Every open scope began inside the log, and no scope before an outer one.
    pub open spec fn wf(&self) -> bool {
        &&& forall|i: int| 0 <= i < self.scopes@.len() ==> self.scopes@[i] <= self.actions@.len()
        &&& forall|i: int, j: int|
            0 <= i <= j < self.scopes@.len() ==> self.scopes@[i] <= self.scopes@[j]
    }

    /// The nonce of `address` as the overlay shows it.
    pub open spec fn spec_nonce(&self, address: Address) -> u64 {
        nonce_after(self.actions@, address, self.backend.spec_nonce(address))
    }

    /// The balance of `address` as the overlay shows it.
    pub open spec fn spec_balance(&self, address: Address) -> nat {
        balance_after(self.actions@, address, self.backend.spec_balance(address)@)
    }

    /// The code of `address` as the overlay shows it.
    pub open spec fn spec_code(&self, address: Address) -> Seq<u8> {
        code_after(self.actions@, address, self.backend.spec_code(address))
    }

    /// Slot `key` of `address` as the overlay shows it.
    pub open spec fn spec_storage(&self, address: Address, key: U256) -> U256 {
        storage_after(self.actions@, address, key, self.backend.spec_storage(address, key))
    }

    /// An overlay with nothing pending.
    pub fn new(backend: &'a B) -> (r: Self)
        ensures
            r.backend == backend,
            r.actions@.len() == 0,
            r.scopes@.len() == 0,
            r.wf(),
    {
        ExecutorState { backend, actions: Vec::new(), scopes: Vec::new() }
    }

    /// An overlay that holds the actions of a suspended execution, outside
    /// any scope.
    pub fn restore(backend: &'a B, actions: Vec<Action>) -> (r: Self)
        ensures
            r.backend == backend,
            r.actions == actions,
            r.scopes@.len() == 0,
            r.wf(),
    {
        ExecutorState { backend, actions, scopes: Vec::new() }
    }

    /// Reads a nonce through the overlay.
    pub fn nonce(&self, address: &Address) -> (r: u64)
        ensures
            r == self.spec_nonce(*address),
    {
        let mut nonce: u64 = self.backend.nonce(address);
        let mut i: usize = 0;
        while i < self.actions.len()
            invariant
                i <= self.actions@.len(),
                nonce == nonce_after(
                    self.actions@.take(i as int),
                    *address,
                    self.backend.spec_nonce(*address),
                ),
            decreases self.actions@.len() - i,
        {
            proof {
                assert(self.actions@.take(i + 1).drop_last() =~= self.actions@.take(i as int));
            }
            match &self.actions[i] {
                Action::IncrementNonce { address: a } => {
                    if a.equals(address) && nonce < u64::MAX {
                        nonce = nonce + 1;
                    }
                },
                _ => {},
            }
            i += 1;
        }
        proof {
            assert(self.actions@.take(i as int) =~= self.actions@);
        }
        nonce
    }

    /// Reads a balance through the overlay.
    pub fn balance(&self, address: &Address) -> (r: U256)
        ensures
            r@ == self.spec_balance(*address),
    {
        let mut balance: U256 = self.backend.balance(address);
        let mut i: usize = 0;
        while i < self.actions.len()
            invariant
                i <= self.actions@.len(),
                balance@ == balance_after(
                    self.actions@.take(i as int),
                    *address,
                    self.backend.spec_balance(*address)@,
                ),
            decreases self.actions@.len() - i,
        {
            proof {
                assert(self.actions@.take(i + 1).drop_last() =~= self.actions@.take(i as int));
            }
            match &self.actions[i] {
                Action::Transfer { source, target, value } => {
                    if source.equals(address) {
                        balance = balance.saturating_sub(*value);
                    }
                    if target.equals(address) {
                        balance = balance.saturating_add(*value);
                    }
                },
                _ => {},
            }
            i += 1;
        }
        proof {
            assert(self.actions@.take(i as int) =~= self.actions@);
        }
        balance
    }

    /// Reads a storage slot: the overlay first, the durable store on a miss.
    pub fn storage(&self, address: &Address, key: &U256) -> (r: U256)
        ensures
            r == self.spec_storage(*address, *key),
    {
        let mut i: usize = self.actions.len();
        proof {
            assert(self.actions@.take(i as int) =~= self.actions@);
        }
        while i > 0
            invariant
                i <= self.actions@.len(),
                self.spec_storage(*address, *key) == storage_after(
                    self.actions@.take(i as int),
                    *address,
                    *key,
                    self.backend.spec_storage(*address, *key),
                ),
            decreases i,
        {
            proof {
                assert(self.actions@.take(i as int).drop_last() =~= self.actions@.take(i - 1));
            }
            match &self.actions[i - 1] {
                Action::SetStorage { address: a, key: k, value } => {
                    if a.equals(address) && *k == *key {
                        return *value;
                    }
                },
                Action::SelfDestruct { address: a } => {
                    if a.equals(address) {
                        return U256::zero_word();
                    }
                },
                _ => {},
            }
            i -= 1;
        }
        self.backend.storage(address, key)
    }

    /// Reads contract code: the overlay first, the durable store on a miss.
    pub fn code(&self, address: &Address) -> (r: Vec<u8>)
        ensures
            r@ == self.spec_code(*address),
    {
        let mut i: usize = self.actions.len();
        proof {
            assert(self.actions@.take(i as int) =~= self.actions@);
        }
        while i > 0
            invariant
                i <= self.actions@.len(),
                self.spec_code(*address) == code_after(
                    self.actions@.take(i as int),
                    *address,
                    self.backend.spec_code(*address),
                ),
            decreases i,
        {
            proof {
                assert(self.actions@.take(i as int).drop_last() =~= self.actions@.take(i - 1));
            }
            match &self.actions[i - 1] {
                Action::SetCode { address: a, code } => {
                    if a.equals(address) {
                        return code.clone();
                    }
                },
                Action::SelfDestruct { address: a } => {
                    if a.equals(address) {
                        return Vec::new();
                    }
                },
                _ => {},
            }
            i -= 1;
        }
        self.backend.code(address)
    }

    /// Buffers a transfer, unless `source` holds less than `value`.
    pub fn transfer(&mut self, source: Address, target: Address, value: U256) -> (r: Result<
        (),
        Error,
    >)
        requires
            old(self).wf(),
        ensures
            final(self).wf(),
            final(self).backend == old(self).backend,
            final(self).scopes == old(self).scopes,
            r is Ok <==> old(self).spec_balance(source) >= value@,
            r is Ok ==> final(self).actions@ == old(self).actions@.push(
                Action::Transfer { source, target, value },
            ),
            r is Err ==> r == Err::<(), Error>(Error::InsufficientFunds) && final(self).actions
                == old(self).actions,
    {
        let held = self.balance(&source);
        if held.lt(&value) {
            return Err(Error::InsufficientFunds);
        }
        self.actions.push(Action::Transfer { source, target, value });
        Ok(())
    }

    /// Buffers a write to one storage slot.
    pub fn set_storage(&mut self, address: Address, key: U256, value: U256)
        requires
            old(self).wf(),
        ensures
            final(self).wf(),
            final(self).backend == old(self).backend,
            final(self).scopes == old(self).scopes,
            final(self).actions@ == old(self).actions@.push(
                Action::SetStorage { address, key, value },
            ),
            final(self).spec_storage(address, key) == value,
    {
        self.actions.push(Action::SetStorage { address, key, value });
        proof {
            assert(self.actions@.drop_last() =~= old(self).actions@);
        }
    }

    /// Buffers new contract code.
    pub fn set_code(&mut self, address: Address, code: Vec<u8>)
        requires
            old(self).wf(),
        ensures
            final(self).wf(),
            final(self).backend == old(self).backend,
            final(self).scopes == old(self).scopes,
            final(self).actions@ == old(self).actions@.push(Action::SetCode { address, code }),
            final(self).spec_code(address) == code@,
    {
        self.actions.push(Action::SetCode { address, code });
        proof {
            assert(self.actions@.drop_last() =~= old(self).actions@);
        }
    }

    /// Buffers one increment of a nonce.
    pub fn inc_nonce(&mut self, address: Address)
        requires
            old(self).wf(),
        ensures
            final(self).wf(),
            final(self).backend == old(self).backend,
            final(self).scopes == old(self).scopes,
            final(self).actions@ == old(self).actions@.push(Action::IncrementNonce { address }),
    {
        self.actions.push(Action::IncrementNonce { address });
    }

    /// Buffers the destruction of an account.
    pub fn selfdestruct(&mut self, address: Address)
        requires
            old(self).wf(),
        ensures
            final(self).wf(),
            final(self).backend == old(self).backend,
            final(self).scopes == old(self).scopes,
            final(self).actions@ == old(self).actions@.push(Action::SelfDestruct { address }),
    {
        self.actions.push(Action::SelfDestruct { address });
    }

    /// Buffers an event.
    pub fn log(&mut self, address: Address, topics: Vec<U256>, data: Vec<u8>)
        requires
            old(self).wf(),
        ensures
            final(self).wf(),
            final(self).backend == old(self).backend,
            final(self).scopes == old(self).scopes,
            final(self).actions@ == old(self).actions@.push(
                Action::EventLog { address, topics, data },
            ),
    {
        self.actions.push(Action::EventLog { address, topics, data });
    }

    /// Opens a scope for a nested call or create.
    pub fn enter_scope(&mut self)
        requires
            old(self).wf(),
        ensures
            final(self).wf(),
            final(self).backend == old(self).backend,
            final(self).actions == old(self).actions,
            final(self).scopes@ == old(self).scopes@.push(old(self).actions@.len() as usize),
    {
        let at: usize = self.actions.len();
        self.scopes.push(at);
    }

    /// Closes the innermost scope with success: what it buffered stays in the
    /// log of its parent. Without an open scope nothing changes.
    pub fn exit_commit(&mut self)
        requires
            old(self).wf(),
        ensures
            final(self).wf(),
            final(self).backend == old(self).backend,
            final(self).actions == old(self).actions,
            old(self).scopes@.len() > 0 ==> final(self).scopes@ == old(self).scopes@.drop_last(),
            old(self).scopes@.len() == 0 ==> final(self).scopes@ == old(self).scopes@,
    {
        let _ = self.scopes.pop();
    }

    /// Closes the innermost scope with failure: everything buffered since it
    /// was opened is dropped. Without an open scope nothing changes.
    pub fn exit_revert(&mut self)
        requires
            old(self).wf(),
        ensures
            final(self).wf(),
            final(self).backend == old(self).backend,
            old(self).scopes@.len() > 0 ==> final(self).scopes@ == old(self).scopes@.drop_last()
                && final(self).actions@ == old(self).actions@.take(
                old(self).scopes@.last() as int,
            ),
            old(self).scopes@.len() == 0 ==> final(self).scopes@ == old(self).scopes@
                && final(self).actions@ == old(self).actions@,
    {
        match self.scopes.pop() {
            Some(at) => {
                self.actions.truncate(at);
            },
            None => {},
        }
    }

    /// Hands out the ordered log for pricing and for commit.
    pub fn into_actions(self) -> (r: Vec<Action>)
        ensures
            r == self.actions,
    {
        self.actions
    }
}

} // verus!
