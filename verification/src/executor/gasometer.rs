//! The gas accountant: what one invocation costs, in lamports.

use crate::account::ether_storage::STORAGE_RECORD_SIZE;
use crate::account_storage::{AccountOperation, AccountStorage, AccountsOperations};
use crate::config::{
    EVM_STEPS_MIN, HOLDER_MSG_SIZE, MAX_PERMITTED_DATA_INCREASE,
    STORAGE_ENTIRIES_IN_CONTRACT_ACCOUNT,
};
use crate::executor::state::ExecutorState;
use crate::rent::Rent;
use crate::transaction::Transaction;
use crate::types::Address;
use crate::u256::{saturating_sum, U256};
use vstd::prelude::*;

verus! {

/// What the host charges the operator for one signed invocation.
pub const LAMPORTS_PER_SIGNATURE: u64 = 5000;

/// The fee for one holder write.
pub const WRITE_TO_HOLDER_TRX_COST: u64 = LAMPORTS_PER_SIGNATURE;

/// The fixed fee of a Cancel.
pub const CANCEL_TRX_COST: u64 = LAMPORTS_PER_SIGNATURE;

/// The fee set aside for the last iteration.
pub const LAST_ITERATION_COST: u64 = LAMPORTS_PER_SIGNATURE;

/// The price of one interpreter step: the cost of one signature spread over
/// the minimum number of steps.
pub const EVM_STEP_COST: u64 = LAMPORTS_PER_SIGNATURE / EVM_STEPS_MIN;

/// Bytes that frame the payload in a holder: the signature and the length.
pub const TRANSACTION_FRAME_SIZE: usize = 73;

/// The sum of two amounts, held at the largest amount.
pub open spec fn sat_add(a: u64, b: u64) -> u64 {
    if a + b > u64::MAX {
        u64::MAX
    } else {
        (a + b) as u64
    }
}

/// The product of two amounts, held at the largest amount.
pub open spec fn sat_mul(a: u64, b: u64) -> u64 {
    if a * b > u64::MAX {
        u64::MAX
    } else {
        (a * b) as u64
    }
}

/// The difference of two amounts, held at zero.
pub open spec fn sat_sub(a: u64, b: u64) -> u64 {
    if a < b {
        0
    } else {
        (a - b) as u64
    }
}

/// The flat fee of an iterative execution: the last iteration and a cancel.
pub open spec fn iterative_overhead() -> u64 {
    sat_add(LAST_ITERATION_COST, CANCEL_TRX_COST)
}

/// The number of holder writes that carry `size` bytes.
pub open spec fn holder_chunks(size: u64) -> u64 {
    if size % HOLDER_MSG_SIZE == 0 {
        size / HOLDER_MSG_SIZE
    } else {
        (size / HOLDER_MSG_SIZE + 1) as u64
    }
}

/// The bytes that a payload of `rlp_len` bytes takes in a holder.
pub open spec fn framed_size(rlp_len: usize) -> u64 {
    if rlp_len + TRANSACTION_FRAME_SIZE > usize::MAX {
        usize::MAX as u64
    } else {
        (rlp_len + TRANSACTION_FRAME_SIZE) as u64
    }
}

/// The price of uploading a payload of `rlp_len` bytes.
pub open spec fn transaction_size_cost(rlp_len: usize) -> u64 {
    sat_mul(holder_chunks(framed_size(rlp_len)), WRITE_TO_HOLDER_TRX_COST)
}

/// The price of `steps` interpreter steps.
pub open spec fn steps_cost(steps: u64) -> u64 {
    sat_mul(steps, EVM_STEP_COST)
}

/// The price of the steps that `steps` falls short of the minimum.
pub open spec fn padding_cost(steps: u64) -> u64 {
    if steps >= EVM_STEPS_MIN {
        0
    } else {
        steps_cost((EVM_STEPS_MIN - steps) as u64)
    }
}

/// Whether a write of `value` to slot `key`, which now holds `current`, makes
/// a new overflow record: the slot lies outside the hot range and goes from
/// zero to a nonzero value.
pub open spec fn creates_storage_record(key: U256, value: U256, current: U256) -> bool {
    key@ >= STORAGE_ENTIRIES_IN_CONTRACT_ACCOUNT && value@ != 0 && current@ == 0
}

/// The rent charged for a write of `value` to slot `key`, which now holds
/// `current`.
pub open spec fn storage_write_cost(rent: Rent, key: U256, value: U256, current: U256) -> u64 {
    if creates_storage_record(key, value, current) {
        rent.spec_minimum_balance(STORAGE_RECORD_SIZE)
    } else {
        0
    }
}

/// The size that a resize from `from` to `to` bytes is priced at: no more
/// than the host lets an account grow in one invocation.
pub open spec fn priced_size(from: usize, to: usize) -> usize {
    let ceiling = if from + MAX_PERMITTED_DATA_INCREASE > usize::MAX {
        usize::MAX
    } else {
        (from + MAX_PERMITTED_DATA_INCREASE) as usize
    };
    if to <= ceiling {
        to
    } else {
        ceiling
    }
}

/// The rent charged for one account operation.
pub open spec fn operation_cost(rent: Rent, operation: AccountOperation) -> u64 {
    match operation {
        AccountOperation::Create { space } => rent.spec_minimum_balance(priced_size(0, space)),
        AccountOperation::Resize { from, to } => sat_sub(
            rent.spec_minimum_balance(priced_size(from, to)),
            rent.spec_minimum_balance(from),
        ),
    }
}

/// The gas after the operations were charged in order on top of `gas`.
pub open spec fn operations_charged(
    rent: Rent,
    operations: Seq<(Address, AccountOperation)>,
    gas: u64,
) -> u64
    decreases operations.len(),
{
    if operations.len() == 0 {
        gas
    } else {
        sat_add(
            operations_charged(rent, operations.drop_last(), gas),
            operation_cost(rent, operations.last().1),
        )
    }
}

/// The product of two amounts, held at the largest amount.
pub fn saturating_mul(a: u64, b: u64) -> (r: u64)
    ensures
        r == sat_mul(a, b),
{
    match a.checked_mul(b) {
        Some(product) => product,
        None => u64::MAX,
    }
}

/// Accumulates the cost of one invocation. Every addition saturates.
#[derive(Clone, Copy, Debug)]
pub struct Gasometer {
    /// Gas charged and paid in earlier invocations of the transaction.
    pub paid_gas: U256,
    /// Gas charged in this invocation.
    pub gas: u64,
    /// The host's rent parameters.
    pub rent: Rent,
}

impl Gasometer {
    /// Whether only the gas of this invocation differs from `before`.
    pub open spec fn charged_since(&self, before: Gasometer) -> bool {
        self.paid_gas == before.paid_gas && self.rent == before.rent
    }

    /// A meter for one invocation, with what earlier invocations were paid.
    pub fn new(paid_gas: Option<U256>, rent: Rent) -> (r: Gasometer)
        ensures
            r.gas == 0,
            r.rent == rent,
            paid_gas is Some ==> r.paid_gas == paid_gas.unwrap(),
            paid_gas is None ==> r.paid_gas@ == 0,
    {
        let paid_gas = match paid_gas {
            Some(paid) => paid,
            None => U256::zero(),
        };
        Gasometer { paid_gas, gas: 0, rent }
    }

    /// The gas charged in this invocation.
    pub fn used_gas(&self) -> (r: U256)
        ensures
            r@ == self.gas,
    {
        U256::from_u64(self.gas)
    }

    /// The gas charged over all invocations, held at the largest value.
    pub fn used_gas_total(&self) -> (r: U256)
        ensures
            r@ == saturating_sum(self.paid_gas@, self.gas as nat),
    {
        self.paid_gas.saturating_add(U256::from_u64(self.gas))
    }

    /// Charges, in the first invocation, the last iteration and a cancel: the
    /// invocation most likely to fail is paid before it runs.
    pub fn record_iterative_overhead(&mut self)
        ensures
            final(self).charged_since(*old(self)),
            final(self).gas == sat_add(sat_add(old(self).gas, LAST_ITERATION_COST), CANCEL_TRX_COST),
    {
        self.gas = self.gas.saturating_add(LAST_ITERATION_COST).saturating_add(CANCEL_TRX_COST);
    }

    /// Charges the upload of the payload: one holder write for each chunk of
    /// the framed payload.
    pub fn record_transaction_size(&mut self, trx: &Transaction)
        ensures
            final(self).charged_since(*old(self)),
            final(self).gas == sat_add(old(self).gas, transaction_size_cost(trx.rlp_len)),
    {
        let size: u64 = trx.rlp_len.saturating_add(TRANSACTION_FRAME_SIZE) as u64;
        let whole: u64 = size / HOLDER_MSG_SIZE;
        let chunks: u64 = if size % HOLDER_MSG_SIZE == 0 {
            whole
        } else {
            whole + 1
        };
        let cost: u64 = saturating_mul(chunks, WRITE_TO_HOLDER_TRX_COST);
        self.gas = self.gas.saturating_add(cost);
    }

    /// Charges `steps` interpreter steps.
    pub fn record_evm_steps(&mut self, steps: u64)
        ensures
            final(self).charged_since(*old(self)),
            final(self).gas == sat_add(old(self).gas, steps_cost(steps)),
    {
        let cost: u64 = saturating_mul(steps, EVM_STEP_COST);
        self.gas = self.gas.saturating_add(cost);
    }

    /// Charges the steps that `steps` falls short of the minimum, so that a
    /// short execution costs what the minimum costs.
    pub fn pad_evm_steps(&mut self, steps: u64)
        ensures
            final(self).charged_since(*old(self)),
            final(self).gas == sat_add(old(self).gas, padding_cost(steps)),
    {
        if steps >= EVM_STEPS_MIN {
            return ;
        }
        self.record_evm_steps(EVM_STEPS_MIN - steps);
    }

    /// Charges the rent of a new overflow record, where the write makes one:
    /// the slot lies outside the hot range, the value is not zero, and the
    /// slot reads zero through the overlay.
    pub fn record_storage_write<B>(
        &mut self,
        state: &ExecutorState<B>,
        address: Address,
        key: U256,
        value: U256,
    ) where B: AccountStorage
        ensures
            final(self).charged_since(*old(self)),
            final(self).gas == sat_add(
                old(self).gas,
                storage_write_cost(old(self).rent, key, value, state.spec_storage(address, key)),
            ),
    {
        if key.lt(&U256::from_u64(STORAGE_ENTIRIES_IN_CONTRACT_ACCOUNT as u64)) {
            return ;
        }
        if value.is_zero() {
            return ;
        }
        if !state.storage(&address, &key).is_zero() {
            return ;
        }
        self.record_account_rent(STORAGE_RECORD_SIZE);
    }

    /// Charges the rent of every account that the commit creates or grows. A
    /// resize is priced for no more growth than the host lets one invocation
    /// make.
    pub fn record_accounts_operations(&mut self, accounts_operations: &AccountsOperations)
        ensures
            final(self).charged_since(*old(self)),
            final(self).gas == operations_charged(
                old(self).rent,
                accounts_operations.entries@,
                old(self).gas,
            ),
    {
        let mut i: usize = 0;
        while i < accounts_operations.entries.len()
            invariant
                i <= accounts_operations.entries@.len(),
                self.charged_since(*old(self)),
                self.gas == operations_charged(
                    old(self).rent,
                    accounts_operations.entries@.take(i as int),
                    old(self).gas,
                ),
            decreases accounts_operations.entries@.len() - i,
        {
            proof {
                assert(accounts_operations.entries@.take(i + 1).drop_last() =~= accounts_operations.entries@.take(
                    i as int,
                ));
            }
            match accounts_operations.entries[i].1 {
                AccountOperation::Create { space } => {
                    let priced: usize = if space <= MAX_PERMITTED_DATA_INCREASE {
                        space
                    } else {
                        MAX_PERMITTED_DATA_INCREASE
                    };
                    self.record_account_rent(priced);
                },
                AccountOperation::Resize { from, to } => {
                    let ceiling: usize = from.saturating_add(MAX_PERMITTED_DATA_INCREASE);
                    let priced: usize = if to <= ceiling {
                        to
                    } else {
                        ceiling
                    };
                    let account_rent_from: u64 = self.rent.minimum_balance(from);
                    let account_rent_to: u64 = self.rent.minimum_balance(priced);
                    self.gas = self.gas.saturating_add(
                        account_rent_to.saturating_sub(account_rent_from),
                    );
                },
            }
            i += 1;
        }
        proof {
            assert(accounts_operations.entries@.take(i as int) =~= accounts_operations.entries@);
        }
    }

    /// Charges the rent of an account of `data_len` bytes.
    pub fn record_account_rent(&mut self, data_len: usize)
        ensures
            final(self).charged_since(*old(self)),
            final(self).gas == sat_add(old(self).gas, old(self).rent.spec_minimum_balance(data_len)),
    {
        let account_rent: u64 = self.rent.minimum_balance(data_len);
        self.gas = self.gas.saturating_add(account_rent);
    }

    /// Charges lamports that the operator spent.
    pub fn record_lamports_used(&mut self, lamports: u64)
        ensures
            final(self).charged_since(*old(self)),
            final(self).gas == sat_add(old(self).gas, lamports),
    {
        self.gas = self.gas.saturating_add(lamports);
    }
}

} // verus!
