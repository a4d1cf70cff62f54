//! Pending actions, and what a log of them makes of an account.

use crate::types::Address;
use crate::u256::{saturating_difference, saturating_sum, U256};
use vstd::prelude::*;

verus! {

/// One buffered mutation. A log of them is applied to durable storage in
/// order when the transaction finalizes with success, and dropped otherwise.
#[derive(Clone, Debug)]
pub enum Action {
    /// Moves `value` from `source` to `target`.
    Transfer { source: Address, target: Address, value: U256 },
    /// Writes one storage slot.
    SetStorage { address: Address, key: U256, value: U256 },
    /// Installs contract code.
    SetCode { address: Address, code: Vec<u8> },
    /// Adds one to the nonce.
    IncrementNonce { address: Address },
    /// Removes the account's code and storage.
    SelfDestruct { address: Address },
    /// An event for the host to emit; it changes no account.
    EventLog { address: Address, topics: Vec<U256>, data: Vec<u8> },
}

/// An action as plain values.
pub enum ActionView {
    Transfer { source: Seq<u8>, target: Seq<u8>, value: U256 },
    SetStorage { address: Seq<u8>, key: U256, value: U256 },
    SetCode { address: Seq<u8>, code: Seq<u8> },
    IncrementNonce { address: Seq<u8> },
    SelfDestruct { address: Seq<u8> },
    EventLog { address: Seq<u8>, topics: Seq<U256>, data: Seq<u8> },
}

impl View for Action {
    type V = ActionView;

    open spec fn view(&self) -> ActionView {
        match *self {
            Action::Transfer { source, target, value } => ActionView::Transfer {
                source: source@,
                target: target@,
                value,
            },
            Action::SetStorage { address, key, value } => ActionView::SetStorage {
                address: address@,
                key,
                value,
            },
            Action::SetCode { address, code } => ActionView::SetCode {
                address: address@,
                code: code@,
            },
            Action::IncrementNonce { address } => ActionView::IncrementNonce {
                address: address@,
            },
            Action::SelfDestruct { address } => ActionView::SelfDestruct { address: address@ },
            Action::EventLog { address, topics, data } => ActionView::EventLog {
                address: address@,
                topics: topics@,
                data: data@,
            },
        }
    }
}

/// The actions of a log as plain values.
pub open spec fn views(actions: Seq<Action>) -> Seq<ActionView> {
    Seq::new(actions.len(), |i: int| actions[i]@)
}

/// The zero word.
pub open spec fn zero_word() -> U256 {
    U256 { hi: 0, lo: 0 }
}

/// The slot `key` of `address` after one action, from its value before.
pub open spec fn storage_step(action: Action, address: Address, key: U256, before: U256) -> U256 {
    match action {
        Action::SetStorage { address: a, key: k, value } => if a@ == address@ && k == key {
            value
        } else {
            before
        },
        Action::SelfDestruct { address: a } => if a@ == address@ {
            zero_word()
        } else {
            before
        },
        _ => before,
    }
}

/// The balance of `address` after one action, from its balance before. A
/// transfer takes no more than is there and gives no more than fits.
pub open spec fn balance_step(action: Action, address: Address, before: nat) -> nat {
    match action {
        Action::Transfer { source, target, value } => {
            let left = if source@ == address@ {
                saturating_difference(before, value@)
            } else {
                before
            };
            if target@ == address@ {
                saturating_sum(left, value@)
            } else {
                left
            }
        },
        _ => before,
    }
}

/// The nonce of `address` after one action, from its nonce before.
pub open spec fn nonce_step(action: Action, address: Address, before: u64) -> u64 {
    match action {
        Action::IncrementNonce { address: a } => if a@ == address@ && before < u64::MAX {
            (before + 1) as u64
        } else {
            before
        },
        _ => before,
    }
}

/// The code of `address` after one action, from its code before.
pub open spec fn code_step(action: Action, address: Address, before: Seq<u8>) -> Seq<u8> {
    match action {
        Action::SetCode { address: a, code } => if a@ == address@ {
            code@
        } else {
            before
        },
        Action::SelfDestruct { address: a } => if a@ == address@ {
            Seq::empty()
        } else {
            before
        },
        _ => before,
    }
}

/// The slot `key` of `address` after the actions, applied in order to the
/// value `base`.
pub open spec fn storage_after(actions: Seq<Action>, address: Address, key: U256, base: U256) -> U256
    decreases actions.len(),
{
    if actions.len() == 0 {
        base
    } else {
        storage_step(
            actions.last(),
            address,
            key,
            storage_after(actions.drop_last(), address, key, base),
        )
    }
}

/// The balance of `address` after the actions, applied in order to `base`.
pub open spec fn balance_after(actions: Seq<Action>, address: Address, base: nat) -> nat
    decreases actions.len(),
{
    if actions.len() == 0 {
        base
    } else {
        balance_step(actions.last(), address, balance_after(actions.drop_last(), address, base))
    }
}

/// The nonce of `address` after the actions, applied in order to `base`.
pub open spec fn nonce_after(actions: Seq<Action>, address: Address, base: u64) -> u64
    decreases actions.len(),
{
    if actions.len() == 0 {
        base
    } else {
        nonce_step(actions.last(), address, nonce_after(actions.drop_last(), address, base))
    }
}

/// The code of `address` after the actions, applied in order to `base`.
pub open spec fn code_after(actions: Seq<Action>, address: Address, base: Seq<u8>) -> Seq<u8>
    decreases actions.len(),
{
    if actions.len() == 0 {
        base
    } else {
        code_step(actions.last(), address, code_after(actions.drop_last(), address, base))
    }
}

/// A log that starts with `first` makes of a slot what the rest of the log
/// makes of what `first` made of it.
pub proof fn lemma_storage_after_prepend(
    first: Action,
    rest: Seq<Action>,
    address: Address,
    key: U256,
    base: U256,
)
    ensures
        storage_after(seq![first] + rest, address, key, base) == storage_after(
            rest,
            address,
            key,
            storage_step(first, address, key, base),
        ),
    decreases rest.len(),
{
    let all = seq![first] + rest;
    if rest.len() == 0 {
        assert(all.drop_last() =~= Seq::<Action>::empty());
        assert(storage_after(all.drop_last(), address, key, base) == base);
    } else {
        assert(all.drop_last() =~= seq![first] + rest.drop_last());
        lemma_storage_after_prepend(first, rest.drop_last(), address, key, base);
    }
}

/// A log that starts with `first` makes of a balance what the rest of the
/// log makes of what `first` made of it.
pub proof fn lemma_balance_after_prepend(
    first: Action,
    rest: Seq<Action>,
    address: Address,
    base: nat,
)
    ensures
        balance_after(seq![first] + rest, address, base) == balance_after(
            rest,
            address,
            balance_step(first, address, base),
        ),
    decreases rest.len(),
{
    let all = seq![first] + rest;
    if rest.len() == 0 {
        assert(all.drop_last() =~= Seq::<Action>::empty());
        assert(balance_after(all.drop_last(), address, base) == base);
    } else {
        assert(all.drop_last() =~= seq![first] + rest.drop_last());
        lemma_balance_after_prepend(first, rest.drop_last(), address, base);
    }
}

/// A log that starts with `first` makes of a nonce what the rest of the log
/// makes of what `first` made of it.
pub proof fn lemma_nonce_after_prepend(first: Action, rest: Seq<Action>, address: Address, base: u64)
    ensures
        nonce_after(seq![first] + rest, address, base) == nonce_after(
            rest,
            address,
            nonce_step(first, address, base),
        ),
    decreases rest.len(),
{
    let all = seq![first] + rest;
    if rest.len() == 0 {
        assert(all.drop_last() =~= Seq::<Action>::empty());
        assert(nonce_after(all.drop_last(), address, base) == base);
    } else {
        assert(all.drop_last() =~= seq![first] + rest.drop_last());
        lemma_nonce_after_prepend(first, rest.drop_last(), address, base);
    }
}

/// A log that starts with `first` makes of an account's code what the rest
/// of the log makes of what `first` made of it.
pub proof fn lemma_code_after_prepend(
    first: Action,
    rest: Seq<Action>,
    address: Address,
    base: Seq<u8>,
)
    ensures
        code_after(seq![first] + rest, address, base) == code_after(
            rest,
            address,
            code_step(first, address, base),
        ),
    decreases rest.len(),
{
    let all = seq![first] + rest;
    if rest.len() == 0 {
        assert(all.drop_last() =~= Seq::<Action>::empty());
        assert(code_after(all.drop_last(), address, base) == base);
    } else {
        assert(all.drop_last() =~= seq![first] + rest.drop_last());
        lemma_code_after_prepend(first, rest.drop_last(), address, base);
    }
}

} // verus!
