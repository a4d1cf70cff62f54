use evm_loader::account_storage::{Account, AccountStorage, ProgramAccountStorage};
use evm_loader::error::Error;
use evm_loader::executor::{Action, ExecutorState};
use evm_loader::types::Address;
use evm_loader::u256::U256;

fn address(byte: u8) -> Address {
    Address::from_bytes([byte; 20])
}

fn store() -> ProgramAccountStorage {
    let mut store = ProgramAccountStorage::new(111);
    store.accounts.push(Account {
        address: address(1),
        balance: U256::from_u64(1000),
        nonce: 5,
        code: vec![0x60, 0x00],
        storage: vec![(U256::from_u64(1), U256::from_u64(11))],
        lock: None,
    });
    store
}

#[test]
fn reads_fall_through_to_the_store() {
    let store = store();
    let state = ExecutorState::new(&store);
    assert_eq!(state.nonce(&address(1)), 5);
    assert_eq!(state.balance(&address(1)), U256::from_u64(1000));
    assert_eq!(state.code(&address(1)), vec![0x60, 0x00]);
    assert_eq!(state.storage(&address(1), &U256::from_u64(1)), U256::from_u64(11));
    assert_eq!(state.storage(&address(1), &U256::from_u64(2)), U256::zero());
    assert_eq!(state.nonce(&address(2)), 0);
    assert_eq!(state.balance(&address(2)), U256::zero());
    assert_eq!(state.code(&address(2)), Vec::<u8>::new());
    assert_eq!(store.chain_id(), 111);
}

#[test]
fn writes_are_seen_through_the_overlay_and_not_in_the_store() {
    let store = store();
    let mut state = ExecutorState::new(&store);
    state.set_storage(address(1), U256::from_u64(1), U256::from_u64(99));
    state.set_code(address(2), vec![1, 2, 3]);
    state.inc_nonce(address(1));
    state.inc_nonce(address(1));
    assert_eq!(state.transfer(address(1), address(2), U256::from_u64(400)), Ok(()));
    assert_eq!(state.storage(&address(1), &U256::from_u64(1)), U256::from_u64(99));
    assert_eq!(state.code(&address(2)), vec![1, 2, 3]);
    assert_eq!(state.nonce(&address(1)), 7);
    assert_eq!(state.balance(&address(1)), U256::from_u64(600));
    assert_eq!(state.balance(&address(2)), U256::from_u64(400));
    assert_eq!(store.storage(&address(1), &U256::from_u64(1)), U256::from_u64(11));
    assert_eq!(store.balance(&address(1)), U256::from_u64(1000));
    assert_eq!(store.nonce(&address(1)), 5);
}

#[test]
fn a_transfer_beyond_the_balance_is_refused() {
    let store = store();
    let mut state = ExecutorState::new(&store);
    assert_eq!(
        state.transfer(address(1), address(2), U256::from_u64(1001)),
        Err(Error::InsufficientFunds)
    );
    assert_eq!(state.actions.len(), 0);
    assert_eq!(state.transfer(address(1), address(2), U256::from_u64(1000)), Ok(()));
    assert_eq!(
        state.transfer(address(1), address(2), U256::from_u64(1)),
        Err(Error::InsufficientFunds)
    );
    assert_eq!(state.transfer(address(2), address(1), U256::from_u64(1)), Ok(()));
}

#[test]
fn a_destroyed_account_reads_without_code_and_storage() {
    let store = store();
    let mut state = ExecutorState::new(&store);
    state.selfdestruct(address(1));
    assert_eq!(state.code(&address(1)), Vec::<u8>::new());
    assert_eq!(state.storage(&address(1), &U256::from_u64(1)), U256::zero());
    assert_eq!(state.balance(&address(1)), U256::from_u64(1000));
    state.set_storage(address(1), U256::from_u64(1), U256::from_u64(3));
    assert_eq!(state.storage(&address(1), &U256::from_u64(1)), U256::from_u64(3));
}

#[test]
fn a_committed_scope_keeps_its_actions_and_a_reverted_scope_drops_them() {
    let store = store();
    let mut state = ExecutorState::new(&store);
    state.set_storage(address(1), U256::from_u64(1), U256::from_u64(20));
    state.enter_scope();
    state.set_storage(address(1), U256::from_u64(1), U256::from_u64(30));
    state.enter_scope();
    state.set_storage(address(1), U256::from_u64(1), U256::from_u64(40));
    state.exit_commit();
    assert_eq!(state.storage(&address(1), &U256::from_u64(1)), U256::from_u64(40));
    assert_eq!(state.scopes.len(), 1);
    state.exit_revert();
    assert_eq!(state.storage(&address(1), &U256::from_u64(1)), U256::from_u64(20));
    assert_eq!(state.actions.len(), 1);
    assert_eq!(state.scopes.len(), 0);
    state.exit_revert();
    state.exit_commit();
    assert_eq!(state.actions.len(), 1);
}

#[test]
fn into_actions_hands_out_the_log_in_order() {
    let store = store();
    let mut state = ExecutorState::new(&store);
    state.inc_nonce(address(1));
    state.log(address(1), vec![U256::from_u64(1)], vec![7]);
    state.set_storage(address(1), U256::from_u64(1), U256::from_u64(20));
    let actions = state.into_actions();
    assert_eq!(actions.len(), 3);
    assert!(matches!(actions[0], Action::IncrementNonce { .. }));
    assert!(matches!(actions[1], Action::EventLog { .. }));
    assert!(matches!(actions[2], Action::SetStorage { .. }));
}

#[test]
fn committing_the_log_makes_the_store_read_what_the_overlay_read() {
    let store = store();
    let mut state = ExecutorState::new(&store);
    state.inc_nonce(address(1));
    state.transfer(address(1), address(2), U256::from_u64(250)).unwrap();
    state.set_storage(address(2), U256::from_u64(70), U256::from_u64(5));
    state.set_storage(address(1), U256::from_u64(1), U256::from_u64(12));
    state.set_code(address(2), vec![0xfe]);
    state.transfer(address(2), address(1), U256::from_u64(50)).unwrap();
    let seen = (
        state.nonce(&address(1)),
        state.balance(&address(1)),
        state.balance(&address(2)),
        state.storage(&address(2), &U256::from_u64(70)),
        state.storage(&address(1), &U256::from_u64(1)),
        state.code(&address(2)),
    );
    let actions = state.into_actions();
    let mut committed = self::store();
    committed.apply_state_change(&actions);
    assert_eq!(committed.nonce(&address(1)), seen.0);
    assert_eq!(committed.balance(&address(1)), seen.1);
    assert_eq!(committed.balance(&address(2)), seen.2);
    assert_eq!(committed.storage(&address(2), &U256::from_u64(70)), seen.3);
    assert_eq!(committed.storage(&address(1), &U256::from_u64(1)), seen.4);
    assert_eq!(committed.code(&address(2)), seen.5);
    assert_eq!(seen.0, 6);
    assert_eq!(seen.1, U256::from_u64(800));
    assert_eq!(seen.2, U256::from_u64(200));
}

#[test]
fn the_store_applies_each_kind_of_action() {
    let mut store = store();
    store.apply_action(&Action::SelfDestruct { address: address(1) });
    assert_eq!(store.code(&address(1)), Vec::<u8>::new());
    assert_eq!(store.storage(&address(1), &U256::from_u64(1)), U256::zero());
    assert_eq!(store.balance(&address(1)), U256::from_u64(1000));
    store.apply_action(&Action::EventLog { address: address(1), topics: vec![], data: vec![] });
    store.apply_action(&Action::Transfer {
        source: address(1),
        target: address(1),
        value: U256::from_u64(5000),
    });
    assert_eq!(store.balance(&address(1)), U256::from_u64(5000));
    store.accounts[0].nonce = u64::MAX;
    store.apply_action(&Action::IncrementNonce { address: address(1) });
    assert_eq!(store.nonce(&address(1)), u64::MAX);
    assert_eq!(store.find(&address(1)), Some(0));
    assert_eq!(store.find(&address(9)), None);
    assert_eq!(store.entry(&address(9)), 1);
}

#[test]
fn locks_are_set_and_released_for_every_account() {
    let mut store = store();
    store.entry(&address(2));
    assert_eq!(store.check_for_blocked_accounts(), Ok(()));
    store.block_accounts(Some([7u8; 65]));
    assert!(store.accounts.iter().all(|account| account.lock.is_some()));
    assert_eq!(store.check_for_blocked_accounts(), Err(Error::AccountBlocked));
    assert_eq!(store.check_accounts_held(&[7u8; 65]), Ok(()));
    assert_eq!(store.check_accounts_held(&[8u8; 65]), Err(Error::AccountBlocked));
    store.accounts[0].lock = None;
    assert_eq!(store.check_accounts_held(&[7u8; 65]), Err(Error::AccountBlocked));
    store.block_accounts(None);
    assert_eq!(store.check_accounts_held(&[7u8; 65]), Err(Error::AccountBlocked));
    assert_eq!(store.check_for_blocked_accounts(), Ok(()));
    assert_eq!(store.balance(&address(1)), U256::from_u64(1000));
}

#[test]
fn a_gas_payment_moves_the_value_or_nothing() {
    let mut store = store();
    assert_eq!(
        store.transfer_gas_payment(address(1), address(3), U256::from_u64(1001)),
        Err(Error::InsufficientFunds)
    );
    assert_eq!(store.accounts.len(), 1);
    assert_eq!(store.transfer_gas_payment(address(1), address(3), U256::from_u64(300)), Ok(()));
    assert_eq!(store.balance(&address(1)), U256::from_u64(700));
    assert_eq!(store.balance(&address(3)), U256::from_u64(300));
    store.debit(&address(3), U256::from_u64(1000));
    assert_eq!(store.balance(&address(3)), U256::zero());
    store.credit(&address(3), U256::max_value());
    store.credit(&address(3), U256::from_u64(1));
    assert_eq!(store.balance(&address(3)), U256::max_value());
}
