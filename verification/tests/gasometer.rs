use evm_loader::account_storage::{AccountOperation, AccountsOperations, ProgramAccountStorage};
use evm_loader::executor::gasometer::{
    saturating_mul, CANCEL_TRX_COST, EVM_STEP_COST, LAMPORTS_PER_SIGNATURE, LAST_ITERATION_COST,
};
use evm_loader::executor::{ExecutorState, Gasometer};
use evm_loader::rent::Rent;
use evm_loader::transaction::Transaction;
use evm_loader::types::Address;
use evm_loader::u256::U256;

fn rent() -> Rent {
    Rent::with_lamports_per_byte(10)
}

fn transaction(rlp_len: usize) -> Transaction {
    Transaction {
        nonce: 0,
        gas_price: U256::from_u64(1),
        gas_limit: U256::from_u64(1_000_000),
        to: None,
        value: U256::zero(),
        call_data: vec![],
        chain_id: None,
        rlp_len,
        hash: [0u8; 32],
        signature: [0u8; 65],
    }
}

fn address(byte: u8) -> Address {
    Address::from_bytes([byte; 20])
}

#[test]
fn a_new_meter_holds_what_was_paid_and_no_gas() {
    let meter = Gasometer::new(None, rent());
    assert_eq!(meter.used_gas(), U256::zero());
    assert_eq!(meter.used_gas_total(), U256::zero());
    let meter = Gasometer::new(Some(U256::from_u64(700)), rent());
    assert_eq!(meter.paid_gas, U256::from_u64(700));
    assert_eq!(meter.gas, 0);
    assert_eq!(meter.used_gas_total(), U256::from_u64(700));
}

#[test]
fn the_step_cost_spreads_the_invocation_costs_over_the_minimum_steps() {
    assert_eq!(LAMPORTS_PER_SIGNATURE, 5000);
    assert_eq!(EVM_STEP_COST, 10);
}

#[test]
fn used_gas_total_saturates() {
    let mut meter = Gasometer::new(Some(U256::max_value()), rent());
    meter.record_lamports_used(5);
    assert_eq!(meter.used_gas(), U256::from_u64(5));
    assert_eq!(meter.used_gas_total(), U256::max_value());
}

#[test]
fn iterative_overhead_is_the_last_iteration_and_a_cancel() {
    let mut meter = Gasometer::new(None, rent());
    meter.record_iterative_overhead();
    assert_eq!(meter.gas, LAST_ITERATION_COST + CANCEL_TRX_COST);
    assert_eq!(meter.gas, 10_000);
    meter.gas = u64::MAX - 1;
    meter.record_iterative_overhead();
    assert_eq!(meter.gas, u64::MAX);
}

#[test]
fn transaction_size_is_priced_by_whole_chunks() {
    let mut meter = Gasometer::new(None, rent());
    meter.record_transaction_size(&transaction(100));
    assert_eq!(meter.gas, 5000);
    let mut meter = Gasometer::new(None, rent());
    meter.record_transaction_size(&transaction(877));
    assert_eq!(meter.gas, 5000);
    let mut meter = Gasometer::new(None, rent());
    meter.record_transaction_size(&transaction(878));
    assert_eq!(meter.gas, 10_000);
    let mut meter = Gasometer::new(None, rent());
    meter.record_transaction_size(&transaction(0));
    assert_eq!(meter.gas, 5000);
    let mut meter = Gasometer::new(None, rent());
    meter.record_transaction_size(&transaction(usize::MAX));
    assert_eq!(meter.gas, u64::MAX);
}

#[test]
fn steps_are_priced_flat() {
    let mut meter = Gasometer::new(None, rent());
    meter.record_evm_steps(500);
    assert_eq!(meter.gas, 5_000);
    meter.record_evm_steps(1);
    assert_eq!(meter.gas, 5_010);
    meter.record_evm_steps(u64::MAX);
    assert_eq!(meter.gas, u64::MAX);
}

#[test]
fn fewer_steps_than_the_minimum_are_padded_to_it() {
    let mut short = Gasometer::new(None, rent());
    short.record_evm_steps(100);
    short.pad_evm_steps(100);
    let mut exact = Gasometer::new(None, rent());
    exact.record_evm_steps(500);
    exact.pad_evm_steps(500);
    assert_eq!(short.gas, exact.gas);
    assert_eq!(short.gas, 5_000);
    let mut none = Gasometer::new(None, rent());
    none.pad_evm_steps(0);
    assert_eq!(none.gas, 5_000);
    let mut long = Gasometer::new(None, rent());
    long.pad_evm_steps(501);
    assert_eq!(long.gas, 0);
}

#[test]
fn a_first_nonzero_write_outside_the_hot_range_is_charged_rent() {
    let store = ProgramAccountStorage::new(1);
    let state = ExecutorState::new(&store);
    let mut meter = Gasometer::new(None, rent());
    meter.record_storage_write(&state, address(1), U256::from_u64(64), U256::from_u64(7));
    assert_eq!(meter.gas, 129 * 10);
}

#[test]
fn hot_range_and_zero_writes_are_free() {
    let store = ProgramAccountStorage::new(1);
    let state = ExecutorState::new(&store);
    let mut meter = Gasometer::new(None, rent());
    meter.record_storage_write(&state, address(1), U256::from_u64(63), U256::from_u64(7));
    assert_eq!(meter.gas, 0);
    meter.record_storage_write(&state, address(1), U256::from_u64(0), U256::from_u64(7));
    assert_eq!(meter.gas, 0);
    meter.record_storage_write(&state, address(1), U256::from_u64(64), U256::zero());
    assert_eq!(meter.gas, 0);
    meter.record_storage_write(&state, address(1), U256::from_words(1, 0), U256::zero());
    assert_eq!(meter.gas, 0);
}

#[test]
fn the_same_write_twice_is_charged_rent_once() {
    let store = ProgramAccountStorage::new(1);
    let mut state = ExecutorState::new(&store);
    let mut meter = Gasometer::new(None, rent());
    let key = U256::from_words(3, 1000);
    let value = U256::from_u64(42);
    meter.record_storage_write(&state, address(1), key, value);
    state.set_storage(address(1), key, value);
    assert_eq!(meter.gas, 1290);
    meter.record_storage_write(&state, address(1), key, value);
    state.set_storage(address(1), key, value);
    assert_eq!(meter.gas, 1290);
    meter.record_storage_write(&state, address(2), key, value);
    assert_eq!(meter.gas, 2580);
}

#[test]
fn a_write_to_a_slot_that_the_store_holds_is_free() {
    let mut store = ProgramAccountStorage::new(1);
    store.apply_state_change(&vec![evm_loader::executor::Action::SetStorage {
        address: address(1),
        key: U256::from_u64(100),
        value: U256::from_u64(1),
    }]);
    let state = ExecutorState::new(&store);
    let mut meter = Gasometer::new(None, rent());
    meter.record_storage_write(&state, address(1), U256::from_u64(100), U256::from_u64(2));
    assert_eq!(meter.gas, 0);
    meter.record_storage_write(&state, address(1), U256::from_u64(101), U256::from_u64(2));
    assert_eq!(meter.gas, 1290);
}

#[test]
fn account_operations_are_priced_with_capped_growth() {
    let mut meter = Gasometer::new(None, rent());
    let mut operations = AccountsOperations::new();
    operations.insert(address(1), AccountOperation::Create { space: 100 });
    operations.insert(address(2), AccountOperation::Create { space: 20_000 });
    operations.insert(address(3), AccountOperation::Resize { from: 100, to: 200 });
    operations.insert(address(4), AccountOperation::Resize { from: 100, to: 50_000 });
    operations.insert(address(5), AccountOperation::Resize { from: 300, to: 200 });
    meter.record_accounts_operations(&operations);
    let expected = (128 + 100) * 10 + (128 + 10_240) * 10 + 100 * 10 + 10_240 * 10;
    assert_eq!(meter.gas, expected);
    let mut empty = Gasometer::new(None, rent());
    empty.record_accounts_operations(&AccountsOperations::new());
    assert_eq!(empty.gas, 0);
}

#[test]
fn account_rent_and_lamports_add_up_and_saturate() {
    let mut meter = Gasometer::new(None, rent());
    meter.record_account_rent(0);
    assert_eq!(meter.gas, 1280);
    meter.record_lamports_used(20);
    assert_eq!(meter.gas, 1300);
    meter.record_lamports_used(u64::MAX);
    assert_eq!(meter.gas, u64::MAX);
    assert_eq!(saturating_mul(u64::MAX, 2), u64::MAX);
    assert_eq!(saturating_mul(7, 6), 42);
}

#[test]
fn an_account_has_one_operation() {
    let mut operations = AccountsOperations::new();
    assert_eq!(operations.insert(address(1), AccountOperation::Create { space: 100 }), None);
    assert_eq!(operations.insert(address(2), AccountOperation::Create { space: 7 }), None);
    assert_eq!(
        operations.insert(address(1), AccountOperation::Create { space: 300 }),
        Some(AccountOperation::Create { space: 100 })
    );
    assert_eq!(operations.len(), 2);
    assert_eq!(operations.get(&address(1)), Some(AccountOperation::Create { space: 300 }));
    assert_eq!(operations.get(&address(2)), Some(AccountOperation::Create { space: 7 }));
    assert_eq!(operations.get(&address(3)), None);
    let mut meter = Gasometer::new(None, rent());
    meter.record_accounts_operations(&operations);
    assert_eq!(meter.gas, (128 + 300) * 10 + (128 + 7) * 10);
}
