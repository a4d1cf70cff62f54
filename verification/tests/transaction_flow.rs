use evm_loader::account_storage::{Account, AccountStorage, ProgramAccountStorage};
use evm_loader::error::Error;
use evm_loader::executor::{Action, ExitStatus, Gasometer};
use evm_loader::instruction::transaction::{
    check_continue, do_begin, do_cancel, do_continue, do_execute, finalize, is_new_transaction,
    pay_gas_cost, Accounts, Execution,
};
use evm_loader::rent::Rent;
use evm_loader::session::{Session, Status};
use evm_loader::signature::{address_of_digest, recover_caller_address};
use evm_loader::transaction::{check_ethereum_transaction, Transaction};
use evm_loader::types::Address;
use evm_loader::u256::U256;

const CHAIN: u64 = 245_022_926;

fn address(byte: u8) -> Address {
    Address::from_bytes([byte; 20])
}

fn secret() -> libsecp256k1::SecretKey {
    libsecp256k1::SecretKey::parse(&[0x42u8; 32]).unwrap()
}

fn sign(hash: &[u8; 32]) -> [u8; 65] {
    let (signature, recovery_id) = libsecp256k1::sign(&libsecp256k1::Message::parse(hash), &secret());
    let mut bytes = [0u8; 65];
    bytes[..64].copy_from_slice(&signature.serialize());
    bytes[64] = recovery_id.serialize();
    bytes
}

fn caller() -> Address {
    let key = libsecp256k1::PublicKey::from_secret_key(&secret()).serialize();
    let digest = solana_program::keccak::hash(&key[1..]).to_bytes();
    let mut bytes = [0u8; 20];
    bytes.copy_from_slice(&digest[12..]);
    Address::from_bytes(bytes)
}

fn operator() -> Address {
    address(0x0b)
}

fn accounts() -> Accounts {
    Accounts { operator: [1u8; 32], treasury: [2u8; 32], operator_ether_account: operator() }
}

fn meter() -> Gasometer {
    Gasometer::new(None, Rent::with_lamports_per_byte(10))
}

fn store(balance: u64) -> ProgramAccountStorage {
    let mut store = ProgramAccountStorage::new(CHAIN);
    store.accounts.push(Account {
        address: caller(),
        balance: U256::from_u64(balance),
        nonce: 3,
        code: vec![],
        storage: vec![],
        lock: None,
    });
    store.accounts.push(Account {
        address: address(0xc0),
        balance: U256::from_u64(77),
        nonce: 1,
        code: vec![1, 2, 3],
        storage: vec![(U256::from_u64(100), U256::from_u64(5))],
        lock: None,
    });
    store
}

fn transaction(number: u8) -> Transaction {
    Transaction {
        nonce: 3,
        gas_price: U256::from_u64(2),
        gas_limit: U256::from_u64(10_000_000),
        to: None,
        value: U256::zero(),
        call_data: vec![0x60, 0x80],
        chain_id: Some(U256::from_u64(CHAIN)),
        rlp_len: 100,
        hash: [number; 32],
        signature: sign(&[number; 32]),
    }
}

fn setup(snapshot: Vec<u8>) -> Execution {
    Execution { steps_executed: 0, exit: ExitStatus::StepLimitReached, snapshot, actions: vec![] }
}

fn suspended(steps: u64, snapshot: u8) -> Execution {
    Execution {
        steps_executed: steps,
        exit: ExitStatus::StepLimitReached,
        snapshot: vec![snapshot],
        actions: vec![],
    }
}

#[test]
fn begin_opens_the_session_locks_the_accounts_and_charges_the_overhead() {
    let mut session = Session::new();
    let mut store = store(1_000_000);
    let outcome =
        do_begin(&accounts(), &mut session, &mut store, meter(), &transaction(1), caller(), setup(vec![42]))
            .unwrap();
    assert_eq!(outcome.treasury_payment, 0);
    assert_eq!(outcome.used_gas, U256::from_u64(15_000));
    assert_eq!(outcome.gas_payment, U256::from_u64(30_000));
    assert!(outcome.exit.is_none());
    assert_eq!(session.status, Status::Active);
    assert_eq!(session.signature, transaction(1).signature);
    assert_eq!(session.caller, caller());
    assert_eq!(session.gas_limit, U256::from_u64(10_000_000));
    assert_eq!(session.gas_price, U256::from_u64(2));
    assert_eq!(session.gas_used, U256::from_u64(15_000));
    assert_eq!(session.snapshot, vec![42]);
    assert_eq!(store.balance(&caller()), U256::from_u64(970_000));
    assert_eq!(store.balance(&operator()), U256::from_u64(30_000));
    assert!(store.accounts.iter().all(|account| account.lock.is_some()));
    assert_eq!(store.accounts.len(), 3);
}

#[test]
fn begin_on_an_active_session_fails() {
    let mut session = Session::new();
    let mut store = store(1_000_000);
    do_begin(&accounts(), &mut session, &mut store, meter(), &transaction(1), caller(), setup(vec![]))
        .unwrap();
    let before = store.balance(&caller());
    let again =
        do_begin(&accounts(), &mut session, &mut store, meter(), &transaction(2), caller(), setup(vec![]));
    assert_eq!(again.unwrap_err(), Error::SessionActive);
    assert_eq!(store.balance(&caller()), before);
    assert_eq!(session.signature, transaction(1).signature);
    assert_eq!(is_new_transaction(&session, &transaction(2).signature, &caller()), Ok(false));
}

#[test]
fn continue_on_an_empty_session_fails() {
    let mut session = Session::new();
    let mut store = store(1_000_000);
    let result =
        do_continue(500, &accounts(), &mut session, &mut store, meter(), suspended(500, 1));
    assert_eq!(result.unwrap_err(), Error::SessionNotActive);
    assert_eq!(session.status, Status::Empty);
    assert_eq!(store.balance(&caller()), U256::from_u64(1_000_000));
    assert_eq!(do_cancel(&accounts(), &mut session, &mut store).unwrap_err(), Error::SessionNotActive);
    assert_eq!(
        finalize(0, &accounts(), &mut session, &mut store, None, meter()).unwrap_err(),
        Error::SessionNotActive
    );
}

#[test]
fn a_finalized_session_rejects_its_own_transaction_and_takes_another() {
    let mut session = Session::new();
    let mut store = store(1_000_000);
    do_begin(&accounts(), &mut session, &mut store, meter(), &transaction(1), caller(), setup(vec![]))
        .unwrap();
    do_cancel(&accounts(), &mut session, &mut store).unwrap();
    assert_eq!(session.status, Status::Finalized);
    assert_eq!(
        is_new_transaction(&session, &transaction(1).signature, &caller()),
        Err(Error::AlreadyFinalized)
    );
    assert_eq!(is_new_transaction(&session, &transaction(2).signature, &caller()), Ok(true));
    assert_eq!(is_new_transaction(&session, &transaction(1).signature, &address(9)), Ok(true));
    assert_eq!(is_new_transaction(&Session::new(), &[1u8; 65], &caller()), Ok(true));
    let replay =
        do_begin(&accounts(), &mut session, &mut store, meter(), &transaction(1), caller(), setup(vec![]));
    assert_eq!(replay.unwrap_err(), Error::AlreadyFinalized);
    assert_eq!(session.status, Status::Finalized);
    let fresh =
        do_begin(&accounts(), &mut session, &mut store, meter(), &transaction(2), caller(), setup(vec![5]));
    assert!(fresh.is_ok());
    assert_eq!(session.status, Status::Active);
    assert_eq!(session.signature, transaction(2).signature);
    assert_eq!(session.gas_used, U256::from_u64(15_000));
}

#[test]
fn begin_wants_the_signature_of_the_caller() {
    let mut session = Session::new();
    let mut store = store(1_000_000);
    assert_eq!(recover_caller_address(&[1u8; 32], &transaction(1).signature), Some(caller()));
    assert_ne!(recover_caller_address(&[2u8; 32], &transaction(1).signature), Some(caller()));
    let mut other_hash = transaction(1);
    other_hash.hash = [9u8; 32];
    assert_eq!(
        do_begin(&accounts(), &mut session, &mut store, meter(), &other_hash, caller(), setup(vec![]))
            .unwrap_err(),
        Error::InvalidSignature
    );
    let mut no_signature = transaction(1);
    no_signature.signature = [0u8; 65];
    assert_eq!(recover_caller_address(&no_signature.hash, &no_signature.signature), None);
    assert_eq!(
        do_begin(&accounts(), &mut session, &mut store, meter(), &no_signature, caller(), setup(vec![]))
            .unwrap_err(),
        Error::InvalidSignature
    );
    let mut bad_recovery_id = transaction(1);
    bad_recovery_id.signature[64] = 4;
    assert_eq!(
        do_begin(&accounts(), &mut session, &mut store, meter(), &bad_recovery_id, caller(), setup(vec![]))
            .unwrap_err(),
        Error::InvalidSignature
    );
    assert_eq!(
        do_begin(&accounts(), &mut session, &mut store, meter(), &transaction(1), address(1), setup(vec![]))
            .unwrap_err(),
        Error::InvalidSignature
    );
    assert_eq!(session.status, Status::Empty);
    let digest = [7u8; 32];
    assert_eq!(address_of_digest(&digest), Address::from_bytes([7u8; 20]));
    let mut counted = [0u8; 32];
    for (i, byte) in counted.iter_mut().enumerate() {
        *byte = i as u8;
    }
    assert_eq!(address_of_digest(&counted).to_bytes()[0], 12);
    assert_eq!(address_of_digest(&counted).to_bytes()[19], 31);
}

#[test]
fn begin_validates_nonce_chain_and_locks() {
    let mut session = Session::new();
    let mut store = store(1_000_000);
    let mut wrong_nonce = transaction(1);
    wrong_nonce.nonce = 4;
    assert_eq!(
        do_begin(&accounts(), &mut session, &mut store, meter(), &wrong_nonce, caller(), setup(vec![]))
            .unwrap_err(),
        Error::InvalidNonce
    );
    let mut wrong_chain = transaction(1);
    wrong_chain.chain_id = Some(U256::from_u64(1));
    assert_eq!(
        do_begin(&accounts(), &mut session, &mut store, meter(), &wrong_chain, caller(), setup(vec![]))
            .unwrap_err(),
        Error::InvalidChainId
    );
    assert_eq!(check_ethereum_transaction(&store, &caller(), &wrong_chain), Err(Error::InvalidChainId));
    let mut no_chain = transaction(1);
    no_chain.chain_id = None;
    assert_eq!(check_ethereum_transaction(&store, &caller(), &no_chain), Ok(()));
    store.accounts[1].lock = Some([9u8; 65]);
    assert_eq!(
        do_begin(&accounts(), &mut session, &mut store, meter(), &transaction(1), caller(), setup(vec![]))
            .unwrap_err(),
        Error::AccountBlocked
    );
    store.accounts[1].lock = None;
    store.accounts[0].balance = U256::from_u64(29_999);
    assert_eq!(
        do_begin(&accounts(), &mut session, &mut store, meter(), &transaction(1), caller(), setup(vec![]))
            .unwrap_err(),
        Error::InsufficientFunds
    );
    assert_eq!(session.status, Status::Empty);
    assert_eq!(store.accounts.len(), 2);
    assert!(store.accounts.iter().all(|account| account.lock.is_none()));
}

#[test]
fn the_lock_names_the_transaction_that_holds_it() {
    let mut session = Session::new();
    let mut store = store(1_000_000);
    do_begin(&accounts(), &mut session, &mut store, meter(), &transaction(1), caller(), setup(vec![0]))
        .unwrap();
    assert!(store.accounts.iter().all(|account| account.lock == Some(transaction(1).signature)));

    let mut other = Session::new();
    assert_eq!(
        do_begin(&accounts(), &mut other, &mut store, meter(), &transaction(2), caller(), setup(vec![0]))
            .unwrap_err(),
        Error::AccountBlocked
    );
    other.status = Status::Active;
    other.signature = transaction(2).signature;
    other.caller = caller();
    other.gas_limit = U256::from_u64(10_000_000);
    let before = store.balance(&caller());
    assert_eq!(
        do_continue(500, &accounts(), &mut other, &mut store, meter(), suspended(500, 1)).unwrap_err(),
        Error::AccountBlocked
    );
    assert_eq!(do_cancel(&accounts(), &mut other, &mut store).unwrap_err(), Error::AccountBlocked);
    assert_eq!(
        finalize(0, &accounts(), &mut other, &mut store, None, meter()).unwrap_err(),
        Error::AccountBlocked
    );
    assert_eq!(store.balance(&caller()), before);
    assert!(store.accounts.iter().all(|account| account.lock == Some(transaction(1).signature)));

    store.accounts[1].lock = None;
    assert_eq!(
        do_continue(500, &accounts(), &mut session, &mut store, meter(), suspended(500, 1))
            .unwrap_err(),
        Error::AccountBlocked
    );
    store.accounts[1].lock = Some(transaction(1).signature);
    assert!(do_continue(500, &accounts(), &mut session, &mut store, meter(), suspended(500, 1)).is_ok());
}

#[test]
fn a_continue_below_the_minimum_is_rejected_unless_fee_less() {
    let mut session = Session::new();
    let mut store = store(1_000_000);
    do_begin(&accounts(), &mut session, &mut store, meter(), &transaction(1), caller(), setup(vec![]))
        .unwrap();
    let result =
        do_continue(499, &accounts(), &mut session, &mut store, meter(), suspended(499, 1));
    assert_eq!(result.unwrap_err(), Error::StepLimitBelowMinimum);
    assert_eq!(session.gas_used, U256::from_u64(15_000));

    let mut free = transaction(2);
    free.gas_price = U256::zero();
    let mut session = Session::new();
    let mut store = self::store(0);
    do_begin(&accounts(), &mut session, &mut store, meter(), &free, caller(), setup(vec![])).unwrap();
    let outcome =
        do_continue(10, &accounts(), &mut session, &mut store, meter(), suspended(10, 1)).unwrap();
    assert_eq!(outcome.used_gas, U256::from_u64(100));
    assert_eq!(outcome.gas_payment, U256::zero());
    assert_eq!(outcome.treasury_payment, 5000);
}

#[test]
fn a_suspended_continue_charges_its_steps_and_keeps_the_session_active() {
    let mut session = Session::new();
    let mut store = store(1_000_000);
    do_begin(&accounts(), &mut session, &mut store, meter(), &transaction(1), caller(), setup(vec![0]))
        .unwrap();
    let outcome =
        do_continue(700, &accounts(), &mut session, &mut store, meter(), suspended(700, 9)).unwrap();
    assert_eq!(outcome.used_gas, U256::from_u64(7_000));
    assert_eq!(outcome.gas_payment, U256::from_u64(14_000));
    assert_eq!(outcome.treasury_payment, 5000);
    assert!(outcome.exit.is_none());
    assert_eq!(session.status, Status::Active);
    assert_eq!(session.gas_used, U256::from_u64(22_000));
    assert_eq!(session.snapshot, vec![9]);
    assert!(store.accounts.iter().all(|account| account.lock.is_some()));
    let idle =
        do_continue(700, &accounts(), &mut session, &mut store, meter(), suspended(0, 8)).unwrap();
    assert_eq!(idle.treasury_payment, 0);
    assert_eq!(idle.used_gas, U256::zero());
    assert_eq!(session.snapshot, vec![9]);
    assert_eq!(session.steps_executed, 700);
}

#[test]
fn an_exit_commits_the_actions_and_releases_the_accounts() {
    let mut session = Session::new();
    let mut store = store(1_000_000);
    do_begin(&accounts(), &mut session, &mut store, meter(), &transaction(1), caller(), setup(vec![0]))
        .unwrap();
    let execution = Execution {
        steps_executed: 500,
        exit: ExitStatus::Return(vec![1]),
        snapshot: vec![],
        actions: vec![
            Action::IncrementNonce { address: caller() },
            Action::SetStorage { address: address(0xc0), key: U256::from_u64(100), value: U256::from_u64(6) },
        ],
    };
    let outcome = do_continue(500, &accounts(), &mut session, &mut store, meter(), execution).unwrap();
    assert!(matches!(outcome.exit, Some(ExitStatus::Return(ref data)) if data == &vec![1]));
    assert_eq!(session.status, Status::Finalized);
    assert_eq!(session.gas_used, U256::from_u64(20_000));
    assert_eq!(store.nonce(&caller()), 4);
    assert_eq!(store.storage(&address(0xc0), &U256::from_u64(100)), U256::from_u64(6));
    assert!(store.accounts.iter().all(|account| account.lock.is_none()));
    assert_eq!(store.balance(&caller()), U256::from_u64(960_000));
}

#[test]
fn a_revert_charges_gas_and_drops_the_actions() {
    for exit in [ExitStatus::Revert(vec![]), ExitStatus::OutOfFunds, ExitStatus::OutOfGas] {
        let mut session = Session::new();
        let mut store = store(1_000_000);
        do_begin(&accounts(), &mut session, &mut store, meter(), &transaction(1), caller(), setup(vec![0]))
            .unwrap();
        let execution = Execution {
            steps_executed: 500,
            exit,
            snapshot: vec![],
            actions: vec![Action::IncrementNonce { address: caller() }],
        };
        let outcome =
            do_continue(500, &accounts(), &mut session, &mut store, meter(), execution).unwrap();
        assert!(outcome.exit.is_some());
        assert_eq!(outcome.used_gas, U256::from_u64(5_000));
        assert_eq!(session.status, Status::Finalized);
        assert_eq!(store.nonce(&caller()), 3);
        assert!(store.accounts.iter().all(|account| account.lock.is_none()));
    }
}

#[test]
fn gas_beyond_the_limit_ends_in_out_of_gas_and_charges_what_is_left() {
    let mut session = Session::new();
    let mut store = store(1_000_000);
    let mut trx = transaction(1);
    trx.gas_limit = U256::from_u64(17_000);
    do_begin(&accounts(), &mut session, &mut store, meter(), &trx, caller(), setup(vec![0])).unwrap();
    let execution = Execution {
        steps_executed: 500,
        exit: ExitStatus::Stop,
        snapshot: vec![],
        actions: vec![Action::IncrementNonce { address: caller() }],
    };
    let outcome = do_continue(500, &accounts(), &mut session, &mut store, meter(), execution).unwrap();
    assert!(matches!(outcome.exit, Some(ExitStatus::OutOfGas)));
    assert_eq!(outcome.used_gas, U256::from_u64(2_000));
    assert_eq!(outcome.gas_payment, U256::from_u64(4_000));
    assert_eq!(session.gas_used, U256::from_u64(17_000));
    assert_eq!(session.status, Status::Finalized);
    assert_eq!(store.nonce(&caller()), 3);
    assert_eq!(store.balance(&caller()), U256::from_u64(966_000));
}

#[test]
fn a_begin_whose_gas_passes_the_limit_ends_at_once() {
    let mut session = Session::new();
    let mut store = store(1_000_000);
    let mut trx = transaction(1);
    trx.gas_limit = U256::from_u64(14_999);
    let outcome =
        do_begin(&accounts(), &mut session, &mut store, meter(), &trx, caller(), setup(vec![0])).unwrap();
    assert!(matches!(outcome.exit, Some(ExitStatus::OutOfGas)));
    assert_eq!(outcome.used_gas, U256::from_u64(14_999));
    assert_eq!(session.status, Status::Finalized);
    assert!(store.accounts.iter().all(|account| account.lock.is_none()));
}

#[test]
fn a_ledger_total_that_overflows_clamps_to_out_of_gas() {
    let mut session = Session::new();
    session.status = Status::Active;
    session.caller = caller();
    session.gas_price = U256::from_u64(1);
    session.gas_limit = U256::max_value();
    session.gas_used = U256::max_value().saturating_sub(U256::from_u64(3));
    let mut store = store(1_000_000);
    store.block_accounts(Some(session.signature));
    let mut meter = meter();
    meter.record_lamports_used(10);
    let results = Some((ExitStatus::Stop, vec![Action::IncrementNonce { address: caller() }]));
    let outcome = finalize(1, &accounts(), &mut session, &mut store, results, meter).unwrap();
    assert!(matches!(outcome.exit, Some(ExitStatus::OutOfGas)));
    assert_eq!(outcome.used_gas, U256::from_u64(3));
    assert_eq!(outcome.gas_payment, U256::from_u64(3));
    assert_eq!(session.gas_used, U256::max_value());
    assert_eq!(session.status, Status::Finalized);
    assert_eq!(store.nonce(&caller()), 3);
    assert_eq!(store.balance(&caller()), U256::from_u64(999_997));
}

#[test]
fn a_payment_that_overflows_is_held_at_the_largest_value_and_cannot_be_paid() {
    let mut session = Session::new();
    session.status = Status::Active;
    session.caller = caller();
    session.gas_price = U256::max_value();
    session.gas_limit = U256::max_value();
    let mut store = store(1_000_000);
    store.block_accounts(Some(session.signature));
    let mut meter = meter();
    meter.record_lamports_used(2);
    assert_eq!(
        finalize(0, &accounts(), &mut session, &mut store, None, meter).unwrap_err(),
        Error::InsufficientFunds
    );
    assert_eq!(session.gas_used, U256::zero());
    assert_eq!(store.balance(&caller()), U256::from_u64(1_000_000));
}

#[test]
fn pay_gas_cost_moves_gas_times_price() {
    let mut session = Session::new();
    session.caller = caller();
    session.gas_price = U256::from_u64(3);
    session.gas_used = U256::from_u64(10);
    let mut store = store(100);
    assert_eq!(
        pay_gas_cost(U256::from_u64(34), operator(), &mut session, &mut store),
        Err(Error::InsufficientFunds)
    );
    assert_eq!(session.gas_used, U256::from_u64(10));
    assert_eq!(pay_gas_cost(U256::from_u64(33), operator(), &mut session, &mut store), Ok(()));
    assert_eq!(session.gas_used, U256::from_u64(43));
    assert_eq!(store.balance(&caller()), U256::from_u64(1));
    assert_eq!(store.balance(&operator()), U256::from_u64(99));
}

#[test]
fn cancel_commits_nothing_and_charges_only_its_fee() {
    let mut session = Session::new();
    let mut store = store(1_000_000);
    do_begin(&accounts(), &mut session, &mut store, meter(), &transaction(1), caller(), setup(vec![0]))
        .unwrap();
    do_continue(500, &accounts(), &mut session, &mut store, meter(), suspended(500, 1)).unwrap();
    let paid_so_far = 2 * (15_000 + 5_000);
    assert_eq!(store.balance(&caller()), U256::from_u64(1_000_000 - paid_so_far));
    let outcome = do_cancel(&accounts(), &mut session, &mut store).unwrap();
    assert_eq!(outcome.used_gas, U256::from_u64(5000));
    assert_eq!(outcome.gas_payment, U256::from_u64(10_000));
    assert_eq!(outcome.treasury_payment, 0);
    assert!(outcome.exit.is_none());
    assert_eq!(session.status, Status::Finalized);
    assert_eq!(session.snapshot, Vec::<u8>::new());
    assert_eq!(session.gas_used, U256::from_u64(25_000));
    assert!(store.accounts.iter().all(|account| account.lock.is_none()));
    assert_eq!(store.balance(&caller()), U256::from_u64(1_000_000 - paid_so_far - 10_000));
    assert_eq!(store.balance(&operator()), U256::from_u64(paid_so_far + 10_000));
    assert_eq!(store.balance(&address(0xc0)), U256::from_u64(77));
    assert_eq!(store.nonce(&caller()), 3);
    assert_eq!(store.nonce(&address(0xc0)), 1);
    assert_eq!(store.code(&address(0xc0)), vec![1, 2, 3]);
    assert_eq!(store.storage(&address(0xc0), &U256::from_u64(100)), U256::from_u64(5));
}

#[test]
fn a_cancel_without_the_fee_ends_the_session_for_nothing() {
    let mut session = Session::new();
    let mut store = store(30_000 + 9_999);
    do_begin(&accounts(), &mut session, &mut store, meter(), &transaction(1), caller(), setup(vec![0]))
        .unwrap();
    assert_eq!(
        do_continue(500, &accounts(), &mut session, &mut store, meter(), suspended(500, 1)).unwrap_err(),
        Error::InsufficientFunds
    );
    let outcome = do_cancel(&accounts(), &mut session, &mut store).unwrap();
    assert_eq!(outcome.used_gas, U256::zero());
    assert_eq!(outcome.gas_payment, U256::zero());
    assert_eq!(session.status, Status::Finalized);
    assert_eq!(session.gas_used, U256::from_u64(15_000));
    assert!(store.accounts.iter().all(|account| account.lock.is_none()));
    assert_eq!(store.balance(&caller()), U256::from_u64(9_999));
    let mut other = Session::new();
    assert!(do_begin(&accounts(), &mut other, &mut self::store(1_000_000), meter(), &transaction(2), caller(), setup(vec![])).is_ok());
}

#[test]
fn a_deployment_of_ten_thousand_steps_takes_twenty_continues_of_five_hundred() {
    let prefix = vec![0x60u8, 0x0a, 0x60, 0x0c, 0x60, 0x00, 0x39, 0x60, 0x0a, 0x60, 0x00, 0xf3];
    let runtime = vec![0x60u8, 0x2a, 0x60, 0x00, 0x52, 0x60, 0x20, 0x60, 0x00, 0xf3];
    let mut init_code = prefix.clone();
    init_code.extend(&runtime);
    let contract = address(0xde);
    let mut trx = transaction(7);
    trx.call_data = init_code.clone();
    trx.rlp_len = init_code.len() + 40;

    let mut session = Session::new();
    let mut store = store(10_000_000);
    do_begin(&accounts(), &mut session, &mut store, meter(), &trx, caller(), setup(vec![0])).unwrap();
    assert_eq!(session.status, Status::Active);

    let needed: u64 = 10_000;
    let budget: u64 = 500;
    let mut done: u64 = 0;
    let mut continues: u64 = 0;
    while session.status == Status::Active {
        let steps = budget.min(needed - done);
        done += steps;
        let execution = if done == needed {
            Execution {
                steps_executed: steps,
                exit: ExitStatus::Return(init_code[prefix.len()..].to_vec()),
                snapshot: vec![],
                actions: vec![
                    Action::IncrementNonce { address: caller() },
                    Action::SetCode { address: contract, code: init_code[prefix.len()..].to_vec() },
                ],
            }
        } else {
            suspended(steps, continues as u8)
        };
        do_continue(budget, &accounts(), &mut session, &mut store, meter(), execution).unwrap();
        continues += 1;
        assert!(continues <= 20);
    }
    assert_eq!(continues, (needed + budget - 1) / budget);
    assert_eq!(continues, 20);
    assert_eq!(session.status, Status::Finalized);
    assert_eq!(store.code(&contract), runtime);
    assert_eq!(store.nonce(&caller()), 4);
    let gas = 15_000 + 20 * 5_000;
    assert_eq!(session.gas_used, U256::from_u64(gas));
    assert_eq!(store.balance(&caller()), U256::from_u64(10_000_000 - 2 * gas));
}

#[test]
fn an_execution_in_one_invocation_settles_without_a_session() {
    let mut store = store(1_000_000);
    let run = Execution {
        steps_executed: 2000,
        exit: ExitStatus::Stop,
        snapshot: vec![],
        actions: vec![Action::IncrementNonce { address: caller() }],
    };
    let outcome = do_execute(&accounts(), &mut store, meter(), &transaction(1), caller(), run).unwrap();
    assert_eq!(outcome.used_gas, U256::from_u64(5000 + 20_000));
    assert_eq!(outcome.gas_payment, U256::from_u64(50_000));
    assert_eq!(outcome.treasury_payment, 5000);
    assert!(matches!(outcome.exit, Some(ExitStatus::Stop)));
    assert_eq!(store.nonce(&caller()), 4);
    assert_eq!(store.balance(&caller()), U256::from_u64(950_000));
    assert!(store.accounts.iter().all(|account| account.lock.is_none()));
}

#[test]
fn an_execution_in_one_invocation_must_end() {
    let mut store = store(1_000_000);
    assert_eq!(
        do_execute(&accounts(), &mut store, meter(), &transaction(1), caller(), suspended(500, 1))
            .unwrap_err(),
        Error::TooManySteps
    );
    let stop = || Execution { steps_executed: 1, exit: ExitStatus::Stop, snapshot: vec![], actions: vec![] };
    assert_eq!(
        do_execute(&accounts(), &mut store, meter(), &transaction(1), address(1), stop()).unwrap_err(),
        Error::InvalidSignature
    );
    store.accounts[1].lock = Some([9u8; 65]);
    assert_eq!(
        do_execute(&accounts(), &mut store, meter(), &transaction(1), caller(), stop()).unwrap_err(),
        Error::AccountBlocked
    );
    store.accounts[1].lock = None;
    store.accounts[0].balance = U256::from_u64(1);
    assert_eq!(
        do_execute(&accounts(), &mut store, meter(), &transaction(1), caller(), stop()).unwrap_err(),
        Error::InsufficientFunds
    );
    assert_eq!(store.balance(&caller()), U256::from_u64(1));
}

#[test]
fn iterative_gas_is_the_gas_of_one_invocation_and_one_overhead() {
    let mut session = Session::new();
    let mut store = store(10_000_000);
    do_begin(&accounts(), &mut session, &mut store, meter(), &transaction(1), caller(), setup(vec![0]))
        .unwrap();
    for steps in [500u64, 800, 1200] {
        do_continue(1200, &accounts(), &mut session, &mut store, meter(), suspended(steps, 1))
            .unwrap();
    }
    let last = Execution { steps_executed: 600, exit: ExitStatus::Stop, snapshot: vec![], actions: vec![] };
    do_continue(1200, &accounts(), &mut session, &mut store, meter(), last).unwrap();
    let all = Execution { steps_executed: 3100, exit: ExitStatus::Stop, snapshot: vec![], actions: vec![] };
    let mut fresh = self::store(10_000_000);
    let single = do_execute(&accounts(), &mut fresh, meter(), &transaction(1), caller(), all).unwrap();
    assert_eq!(session.gas_used, single.used_gas.saturating_add(U256::from_u64(10_000)));
    assert_eq!(single.used_gas, U256::from_u64(5000 + 3100 * 10));
}

#[test]
fn a_begin_charges_the_steps_of_its_run_and_keeps_its_snapshot() {
    let mut session = Session::new();
    let mut store = store(1_000_000);
    let outcome =
        do_begin(&accounts(), &mut session, &mut store, meter(), &transaction(1), caller(), suspended(300, 9))
            .unwrap();
    assert_eq!(outcome.used_gas, U256::from_u64(15_000 + 3_000));
    assert_eq!(outcome.treasury_payment, 5000);
    assert!(outcome.exit.is_none());
    assert_eq!(session.status, Status::Active);
    assert_eq!(session.snapshot, vec![9]);
    assert!(store.accounts.iter().all(|account| account.lock == Some(transaction(1).signature)));
}

#[test]
fn a_run_that_ends_in_the_begin_is_finalized_there_and_padded() {
    let mut session = Session::new();
    let mut store = store(1_000_000);
    let run = Execution {
        steps_executed: 120,
        exit: ExitStatus::Return(vec![7]),
        snapshot: vec![],
        actions: vec![Action::IncrementNonce { address: caller() }],
    };
    let outcome =
        do_begin(&accounts(), &mut session, &mut store, meter(), &transaction(1), caller(), run.clone())
            .unwrap();
    assert_eq!(outcome.used_gas, U256::from_u64(15_000 + 5_000));
    assert!(matches!(outcome.exit, Some(ExitStatus::Return(_))));
    assert_eq!(session.status, Status::Finalized);
    assert_eq!(session.signature, transaction(1).signature);
    assert_eq!(store.nonce(&caller()), 4);
    assert!(store.accounts.iter().all(|account| account.lock.is_none()));
    let mut fresh = self::store(1_000_000);
    let single = do_execute(&accounts(), &mut fresh, meter(), &transaction(1), caller(), run).unwrap();
    assert_eq!(outcome.used_gas, single.used_gas.saturating_add(U256::from_u64(10_000)));
}

#[test]
fn one_padded_step_costs_the_minimum() {
    let mut meter = meter();
    meter.record_evm_steps(1);
    meter.pad_evm_steps(1);
    assert_eq!(meter.used_gas(), U256::from_u64(5000));
}

#[test]
fn the_total_does_not_depend_on_how_the_steps_were_split() {
    let mut session = Session::new();
    let mut store = store(10_000_000);
    do_begin(&accounts(), &mut session, &mut store, meter(), &transaction(1), caller(), setup(vec![0]))
        .unwrap();
    do_continue(500, &accounts(), &mut session, &mut store, meter(), suspended(500, 1)).unwrap();
    let last = Execution { steps_executed: 100, exit: ExitStatus::Stop, snapshot: vec![], actions: vec![] };
    let outcome = do_continue(500, &accounts(), &mut session, &mut store, meter(), last).unwrap();
    assert_eq!(outcome.used_gas, U256::from_u64(1_000));
    assert_eq!(session.steps_executed, 600);
    let all = Execution { steps_executed: 600, exit: ExitStatus::Stop, snapshot: vec![], actions: vec![] };
    let mut fresh = self::store(10_000_000);
    let single = do_execute(&accounts(), &mut fresh, meter(), &transaction(1), caller(), all).unwrap();
    assert_eq!(single.used_gas, U256::from_u64(5_000 + 6_000));
    assert_eq!(session.gas_used, single.used_gas.saturating_add(U256::from_u64(10_000)));
}

#[test]
fn a_short_transaction_is_charged_the_minimum_once() {
    let mut session = Session::new();
    let mut store = store(10_000_000);
    do_begin(&accounts(), &mut session, &mut store, meter(), &transaction(1), caller(), suspended(100, 1))
        .unwrap();
    assert_eq!(session.gas_used, U256::from_u64(15_000 + 1_000));
    let last = Execution { steps_executed: 100, exit: ExitStatus::Stop, snapshot: vec![], actions: vec![] };
    let outcome = do_continue(500, &accounts(), &mut session, &mut store, meter(), last).unwrap();
    assert_eq!(outcome.used_gas, U256::from_u64(1_000 + 3_000));
    assert_eq!(session.gas_used, U256::from_u64(15_000 + 5_000));
    assert_eq!(session.steps_executed, 200);
}

#[test]
fn transfers_that_the_payment_leaves_without_funds_end_in_out_of_funds() {
    let mut session = Session::new();
    let mut store = store(30_000 + 10_000 + 50);
    do_begin(&accounts(), &mut session, &mut store, meter(), &transaction(1), caller(), setup(vec![0]))
        .unwrap();
    let run = Execution {
        steps_executed: 500,
        exit: ExitStatus::Stop,
        snapshot: vec![],
        actions: vec![
            Action::IncrementNonce { address: caller() },
            Action::Transfer { source: caller(), target: address(0x77), value: U256::from_u64(100) },
        ],
    };
    let outcome = do_continue(500, &accounts(), &mut session, &mut store, meter(), run).unwrap();
    assert!(matches!(outcome.exit, Some(ExitStatus::OutOfFunds)));
    assert_eq!(outcome.used_gas, U256::from_u64(5_000));
    assert_eq!(session.status, Status::Finalized);
    assert_eq!(store.balance(&caller()), U256::from_u64(50));
    assert_eq!(store.balance(&address(0x77)), U256::zero());
    assert_eq!(store.balance(&operator()), U256::from_u64(40_000));
    assert_eq!(store.nonce(&caller()), 3);
    assert!(store.accounts.iter().all(|account| account.lock.is_none()));
}

#[test]
fn transfers_that_are_funded_are_committed() {
    let mut session = Session::new();
    let mut store = store(30_000 + 10_000 + 100);
    do_begin(&accounts(), &mut session, &mut store, meter(), &transaction(1), caller(), setup(vec![0]))
        .unwrap();
    let run = Execution {
        steps_executed: 500,
        exit: ExitStatus::Stop,
        snapshot: vec![],
        actions: vec![
            Action::Transfer { source: caller(), target: address(0x77), value: U256::from_u64(100) },
            Action::Transfer { source: address(0x77), target: address(0x78), value: U256::from_u64(60) },
        ],
    };
    let outcome = do_continue(500, &accounts(), &mut session, &mut store, meter(), run).unwrap();
    assert!(matches!(outcome.exit, Some(ExitStatus::Stop)));
    assert_eq!(store.balance(&caller()), U256::zero());
    assert_eq!(store.balance(&address(0x77)), U256::from_u64(40));
    assert_eq!(store.balance(&address(0x78)), U256::from_u64(60));
}

#[test]
fn a_continue_is_checked_before_it_is_run() {
    let mut session = Session::new();
    assert_eq!(check_continue(&session, 500), Err(Error::SessionNotActive));
    session.status = Status::Active;
    session.gas_price = U256::from_u64(1);
    assert_eq!(check_continue(&session, 499), Err(Error::StepLimitBelowMinimum));
    assert_eq!(check_continue(&session, 500), Ok(()));
    session.gas_price = U256::zero();
    assert_eq!(check_continue(&session, 0), Ok(()));
}
