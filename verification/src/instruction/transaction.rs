//! The continuation state machine: Begin, Continue, Finalize and Cancel of
//! one transaction over many invocations.
//!
//! The interpreter runs outside: a Begin, a Continue and an execution in one
//! invocation each take what one run of the interpreter reported. Fees follow one policy: each interpreter step
//! has a flat price, and an invocation that ran steps owes the treasury one
//! deposit, which is reported for the host to make.

use crate::account_storage::program::same_bytes;
use crate::account_storage::{AccountStorage, ProgramAccountStorage};
use crate::config::{EVM_STEPS_MIN, PAYMENT_TO_TREASURE};
use crate::error::Error;
use crate::executor::action::{balance_after, Action};
use crate::executor::exit_status::ExitStatus;
use crate::executor::gasometer::{
    padding_cost, sat_add, steps_cost, transaction_size_cost, Gasometer, CANCEL_TRX_COST,
    LAST_ITERATION_COST,
};
use crate::executor::state::ExecutorState;
use crate::session::{Session, Status};
use crate::signature::{recover_caller_address, spec_caller_address};
use crate::transaction::{check_ethereum_transaction, transaction_error, Transaction};
use crate::types::Address;
use crate::u256::{
    lemma_u256_of_view, lemma_view_bound, saturating_difference, saturating_product,
    saturating_sum, u256_of, U256,
};
use vstd::prelude::*;

verus! {

/// The host accounts of one invocation, by their keys.
#[derive(Clone, Copy, Debug)]
pub struct Accounts {
    /// The operator who submitted the invocation.
    pub operator: [u8; 32],
    /// The treasury that the operator's deposit goes to.
    pub treasury: [u8; 32],
    /// The operator's Ethereum account, which receives the gas payments.
    pub operator_ether_account: Address,
}

/// What one run of the interpreter reported.
#[derive(Clone, Debug)]
pub struct Execution {
    /// The steps that the run took.
    pub steps_executed: u64,
    /// How the run stopped; `StepLimitReached` where it was suspended.
    pub exit: ExitStatus,
    /// The interpreter after the run, packed.
    pub snapshot: Vec<u8>,
    /// The pending actions of the transaction, drained from the overlay.
    pub actions: Vec<Action>,
}

/// What an invocation decided, for the host to carry out and to report.
#[derive(Clone, Debug)]
pub struct Outcome {
    /// The lamports that the operator owes the treasury.
    pub treasury_payment: u64,
    /// The gas charged by this invocation.
    pub used_gas: U256,
    /// What moved from the caller to the operator for that gas.
    pub gas_payment: U256,
    /// The exit to report, where the transaction ended with one.
    pub exit: Option<ExitStatus>,
}

/// Whether `used` more gas on top of the `paid` gas passes the limit. A sum
/// that does not fit in 256 bits passes every limit.
pub open spec fn over_limit(paid: nat, used: nat, limit: nat) -> bool {
    paid + used > limit
}

/// The gas that an invocation is charged: what it used, or, where that
/// passes the limit, what the limit leaves.
pub open spec fn charged_gas(paid: nat, used: nat, limit: nat) -> nat {
    if over_limit(paid, used, limit) {
        saturating_difference(limit, paid)
    } else {
        used
    }
}

/// The payment for `charged` gas at `price`.
pub open spec fn gas_payment(charged: nat, price: nat) -> nat {
    saturating_product(charged, price)
}

/// The transfer that pays `charged` gas of the session to `operator`.
pub open spec fn payment_action(session: &Session, operator: Address, charged: nat) -> Action {
    Action::Transfer {
        source: session.caller,
        target: operator,
        value: u256_of(gas_payment(charged, session.gas_price@)),
    }
}

/// The exit that results report, if they report one.
pub open spec fn exit_of(results: Option<(ExitStatus, Vec<Action>)>) -> Option<ExitStatus> {
    match results {
        Some((status, _)) => if status.spec_is_exit() {
            Some(status)
        } else {
            None
        },
        None => None,
    }
}

/// The pending actions that results hand in.
pub open spec fn results_log(results: Option<(ExitStatus, Vec<Action>)>) -> Seq<Action> {
    match results {
        Some((_, actions)) => actions@,
        None => Seq::empty(),
    }
}

/// Whether the `i`-th action of the log, if it is a transfer, finds its
/// value at its source once the payment and the actions before it are
/// applied to the store.
pub open spec fn covered_at(pay: Action, log: Seq<Action>, store: &ProgramAccountStorage, i: int) -> bool {
    match log[i] {
        Action::Transfer { source, value, .. } => balance_after(
            seq![pay] + log.take(i),
            source,
            store.balance_of(source)@,
        ) >= value@,
        _ => true,
    }
}

/// Whether every transfer of the log finds its value at its source once the
/// payment is made: then committing the log takes from each source what it
/// gives to the target.
pub open spec fn covered(pay: Action, log: Seq<Action>, store: &ProgramAccountStorage) -> bool {
    forall|i: int| 0 <= i < log.len() ==> #[trigger] covered_at(pay, log, store, i)
}

/// Whether the caller, after paying for the gas of the invocation, can fund
/// the transfers that the results hand in.
pub open spec fn funded(
    before: &Session,
    store: &ProgramAccountStorage,
    operator: Address,
    used: u64,
    results: Option<(ExitStatus, Vec<Action>)>,
) -> bool {
    covered(
        payment_action(
            before,
            operator,
            charged_gas(before.gas_used@, used as nat, before.gas_limit@),
        ),
        results_log(results),
        store,
    )
}

/// The exit of an invocation: `OutOfGas` where the gas passes the limit;
/// `OutOfFunds` where a successful exit hands in transfers that the payment
/// leaves without funds; else what the results report.
pub open spec fn settled_exit(
    before: &Session,
    store: &ProgramAccountStorage,
    operator: Address,
    used: u64,
    results: Option<(ExitStatus, Vec<Action>)>,
) -> Option<ExitStatus> {
    if over_limit(before.gas_used@, used as nat, before.gas_limit@) {
        Some(ExitStatus::OutOfGas)
    } else {
        match exit_of(results) {
            Some(status) => if status.spec_commits() && !funded(
                before,
                store,
                operator,
                used,
                results,
            ) {
                Some(ExitStatus::OutOfFunds)
            } else {
                Some(status)
            },
            None => None,
        }
    }
}

/// The actions that an invocation commits: those of the results, where the
/// exit of the invocation is a success.
pub open spec fn settled_log(
    before: &Session,
    store: &ProgramAccountStorage,
    operator: Address,
    used: u64,
    results: Option<(ExitStatus, Vec<Action>)>,
) -> Seq<Action> {
    match settled_exit(before, store, operator, used, results) {
        Some(status) => if status.spec_commits() {
            results_log(results)
        } else {
            Seq::empty()
        },
        None => Seq::empty(),
    }
}

/// Whether the session was finalized by this signature and caller.
pub open spec fn same_identity(session: &Session, signature: [u8; 65], caller: Address) -> bool {
    session.signature@ == signature@ && session.caller@ == caller@
}

/// The gas charged and whether the limit was passed.
fn charge(paid: U256, used: U256, limit: U256) -> (r: (U256, bool))
    ensures
        r.1 == over_limit(paid@, used@, limit@),
        r.0@ == charged_gas(paid@, used@, limit@),
{
    proof {
        lemma_view_bound(limit);
    }
    let out_of_gas = match paid.checked_add(used) {
        Some(total) => total.gt(&limit),
        None => true,
    };
    if out_of_gas {
        (limit.saturating_sub(paid), true)
    } else {
        (used, false)
    }
}

/// Whether a request with this signature and caller begins a transaction on
/// the session. An Empty session begins one. A Finalized session begins one
/// for another signature or caller, and rejects the one that finalized it. An
/// Active session begins none: it continues.
pub fn is_new_transaction(session: &Session, signature: &[u8; 65], caller: &Address) -> (r: Result<
    bool,
    Error,
>)
    ensures
        session.status is Empty ==> r == Ok::<bool, Error>(true),
        session.status is Active ==> r == Ok::<bool, Error>(false),
        session.status is Finalized && same_identity(session, *signature, *caller) ==> r == Err::<
            bool,
            Error,
        >(Error::AlreadyFinalized),
        session.status is Finalized && !same_identity(session, *signature, *caller) ==> r == Ok::<
            bool,
            Error,
        >(true),
{
    match session.status {
        Status::Empty => Ok(true),
        Status::Active => Ok(false),
        Status::Finalized => {
            if same_bytes(&session.signature, signature) && session.caller.equals(caller) {
                Err(Error::AlreadyFinalized)
            } else {
                Ok(true)
            }
        },
    }
}

/// Pays `used_gas` at the session's price from the caller to the operator
/// and adds it to the gas that the session has used. Where the caller holds
/// less than the payment, nothing changes.
pub fn pay_gas_cost(
    used_gas: U256,
    operator_ether_account: Address,
    session: &mut Session,
    account_storage: &mut ProgramAccountStorage,
) -> (r: Result<(), Error>)
    ensures
        r is Ok <==> old(account_storage).balance_of(old(session).caller)@ >= gas_payment(
            used_gas@,
            old(session).gas_price@,
        ),
        r is Err ==> r.unwrap_err() == Error::InsufficientFunds && *final(session) == *old(session)
            && *final(account_storage) == *old(account_storage),
        r is Ok ==> final(session).same_transaction(old(session)),
        r is Ok ==> final(session).status == old(session).status,
        r is Ok ==> final(session).snapshot == old(session).snapshot,
        r is Ok ==> final(session).steps_executed == old(session).steps_executed,
        r is Ok ==> final(session).gas_used@ == saturating_sum(old(session).gas_used@, used_gas@),
        r is Ok ==> final(account_storage).stepped(
            old(account_storage),
            payment_action(old(session), operator_ether_account, used_gas@),
        ),
{
    let value = used_gas.saturating_mul(session.gas_price);
    proof {
        lemma_u256_of_view(value);
    }
    match account_storage.transfer_gas_payment(session.caller, operator_ether_account, value) {
        Err(e) => Err(e),
        Ok(()) => {
            session.gas_used = session.gas_used.saturating_add(used_gas);
            Ok(())
        },
    }
}

/// Why an invocation is not settled, if it is not. The first reason that
/// holds counts.
pub open spec fn settle_error(
    session: &Session,
    account_storage: &ProgramAccountStorage,
    used: u64,
) -> Option<Error> {
    if !(session.status is Active) {
        Some(Error::SessionNotActive)
    } else if !account_storage.all_held_by(session.signature@) {
        Some(Error::AccountBlocked)
    } else if account_storage.balance_of(session.caller)@ < gas_payment(
        charged_gas(session.gas_used@, used as nat, session.gas_limit@),
        session.gas_price@,
    ) {
        Some(Error::InsufficientFunds)
    } else {
        None
    }
}

/// The balance of `address` after the payment and the first `upto` actions
/// of the log.
fn balance_through(
    account_storage: &ProgramAccountStorage,
    source: &Address,
    target: &Address,
    value: U256,
    actions: &Vec<Action>,
    upto: usize,
    address: &Address,
) -> (r: U256)
    requires
        upto <= actions@.len(),
    ensures
        r@ == balance_after(
            seq![Action::Transfer { source: *source, target: *target, value }] + actions@.take(
                upto as int,
            ),
            *address,
            account_storage.balance_of(*address)@,
        ),
{
    let ghost pay = Action::Transfer { source: *source, target: *target, value };
    let mut balance: U256 = account_storage.balance(address);
    if source.equals(address) {
        balance = balance.saturating_sub(value);
    }
    if target.equals(address) {
        balance = balance.saturating_add(value);
    }
    proof {
        let first = seq![pay] + actions@.take(0);
        assert(first =~= seq![pay]);
        assert(first.drop_last() =~= Seq::<Action>::empty());
        assert(balance_after(first.drop_last(), *address, account_storage.balance_of(*address)@)
            == account_storage.balance_of(*address)@);
    }
    let mut i: usize = 0;
    while i < upto
        invariant
            i <= upto <= actions@.len(),
            pay == (Action::Transfer { source: *source, target: *target, value }),
            balance@ == balance_after(
                seq![pay] + actions@.take(i as int),
                *address,
                account_storage.balance_of(*address)@,
            ),
        decreases upto - i,
    {
        proof {
            let next = seq![pay] + actions@.take(i + 1);
            assert(next.drop_last() =~= seq![pay] + actions@.take(i as int));
            assert(next.last() == actions@[i as int]);
        }
        match &actions[i] {
            Action::Transfer { source: from, target: to, value: moved } => {
                if from.equals(address) {
                    balance = balance.saturating_sub(*moved);
                }
                if to.equals(address) {
                    balance = balance.saturating_add(*moved);
                }
            },
            _ => {},
        }
        i += 1;
    }
    balance
}

/// Whether every transfer of the log finds its value at its source once the
/// payment is made.
fn transfers_covered(
    account_storage: &ProgramAccountStorage,
    source: &Address,
    target: &Address,
    value: U256,
    actions: &Vec<Action>,
) -> (r: bool)
    ensures
        r == covered(
            Action::Transfer { source: *source, target: *target, value },
            actions@,
            account_storage,
        ),
{
    let ghost pay = Action::Transfer { source: *source, target: *target, value };
    let mut i: usize = 0;
    while i < actions.len()
        invariant
            i <= actions@.len(),
            pay == (Action::Transfer { source: *source, target: *target, value }),
            forall|k: int| 0 <= k < i ==> #[trigger] covered_at(pay, actions@, account_storage, k),
        decreases actions@.len() - i,
    {
        match &actions[i] {
            Action::Transfer { source: from, value: moved, .. } => {
                let held = balance_through(account_storage, source, target, value, actions, i, from);
                if held.lt(moved) {
                    proof {
                        assert(!covered_at(pay, actions@, account_storage, i as int));
                    }
                    return false;
                }
            },
            _ => {},
        }
        i += 1;
    }
    true
}

/// Settles one invocation of an Active session that holds the lock on every
/// account of the store. The gas of the meter is charged, or what the limit
/// leaves where the total passes the limit; a total that overflows passes
/// it. The caller pays the operator for the charge. With an exit, or past
/// the limit, the session ends: a successful exit within the limit commits
/// the pending actions, unless the payment leaves one of their transfers
/// without funds, which ends the transaction as `OutOfFunds`; any other exit
/// drops them. Then every account is released and the session is Finalized.
/// Without an exit the session stays Active and holds every account of the
/// store. The steps of the run are added to those of the session. An
/// invocation that ran steps owes the treasury its deposit. An invocation
/// that is not settled changes nothing.
pub fn finalize(
    steps_executed: u64,
    accounts: &Accounts,
    session: &mut Session,
    account_storage: &mut ProgramAccountStorage,
    results: Option<(ExitStatus, Vec<Action>)>,
    gasometer: Gasometer,
) -> (r: Result<Outcome, Error>)
    ensures
        r is Err <==> settle_error(old(session), old(account_storage), gasometer.gas) is Some,
        r is Err ==> Some(r.unwrap_err()) == settle_error(
            old(session),
            old(account_storage),
            gasometer.gas,
        ),
        r is Err ==> *final(session) == *old(session) && *final(account_storage) == *old(
            account_storage,
        ),
        r is Ok ==> settled(
            old(session),
            final(session),
            old(account_storage),
            final(account_storage),
            accounts.operator_ether_account,
            steps_executed,
            gasometer.gas,
            results,
            r.unwrap(),
        ),
{
    if session.status != Status::Active {
        return Err(Error::SessionNotActive);
    }
    match account_storage.check_accounts_held(&session.signature) {
        Err(e) => {
            return Err(e);
        },
        Ok(()) => {},
    }
    let (charged, out_of_gas) = charge(session.gas_used, gasometer.used_gas(), session.gas_limit);
    let payment = charged.saturating_mul(session.gas_price);
    let ghost pay = payment_action(old(session), accounts.operator_ether_account, charged@);
    proof {
        lemma_u256_of_view(payment);
    }
    let (exit, log): (Option<ExitStatus>, Option<Vec<Action>>) = if out_of_gas {
        (Some(ExitStatus::OutOfGas), None)
    } else {
        match results {
            Some((status, actions)) => {
                if !status.is_exit() {
                    (None, None)
                } else if !status.commits() {
                    (Some(status), None)
                } else if transfers_covered(
                    account_storage,
                    &session.caller,
                    &accounts.operator_ether_account,
                    payment,
                    &actions,
                ) {
                    (Some(status), Some(actions))
                } else {
                    (Some(ExitStatus::OutOfFunds), None)
                }
            },
            None => (None, None),
        }
    };
    match pay_gas_cost(charged, accounts.operator_ether_account, session, account_storage) {
        Err(e) => {
            return Err(e);
        },
        Ok(()) => {},
    }
    let ghost paid = *account_storage;
    let treasury_payment: u64 = if steps_executed > 0 {
        PAYMENT_TO_TREASURE
    } else {
        0
    };
    proof {
        paid.lemma_reads_after_nothing();
    }
    match &log {
        Some(actions) => {
            account_storage.apply_state_change(actions);
        },
        None => {},
    }
    let ghost applied = *account_storage;
    let ghost committed = settled_log(
        old(session),
        old(account_storage),
        accounts.operator_ether_account,
        gasometer.gas,
        results,
    );
    proof {
        assert(applied.reads_after(&paid, committed));
        applied.lemma_reads_after_prepend(paid, *old(account_storage), pay, committed);
    }
    if exit.is_some() {
        account_storage.block_accounts(None);
        session.status = Status::Finalized;
    } else {
        account_storage.block_accounts(Some(session.signature));
    }
    session.steps_executed = session.steps_executed.saturating_add(steps_executed);
    proof {
        account_storage.lemma_reads_after_same(
            applied,
            *old(account_storage),
            seq![pay] + committed,
        );
    }
    Ok(Outcome { treasury_payment, used_gas: charged, gas_payment: payment, exit })
}

/// What a settled invocation reports, by what it was given.
pub open spec fn outcome_settled(
    before: &Session,
    store_before: &ProgramAccountStorage,
    operator: Address,
    steps_executed: u64,
    used: u64,
    results: Option<(ExitStatus, Vec<Action>)>,
    outcome: Outcome,
) -> bool {
    let charged = charged_gas(before.gas_used@, used as nat, before.gas_limit@);
    &&& outcome.treasury_payment == (if steps_executed > 0 {
        PAYMENT_TO_TREASURE
    } else {
        0
    })
    &&& outcome.used_gas@ == charged
    &&& outcome.gas_payment@ == gas_payment(charged, before.gas_price@)
    &&& outcome.exit == settled_exit(before, store_before, operator, used, results)
}

/// What a settled invocation leaves of the session: the same transaction,
/// with the charge added to the gas used and the steps of the run to the
/// steps taken; Finalized with an exit, else Active.
pub open spec fn session_settled(
    before: &Session,
    after: &Session,
    steps_executed: u64,
    used: u64,
    outcome: Outcome,
) -> bool {
    let charged = charged_gas(before.gas_used@, used as nat, before.gas_limit@);
    &&& after.same_transaction(before)
    &&& after.gas_used@ == saturating_sum(before.gas_used@, charged)
    &&& after.steps_executed == sat_add(before.steps_executed, steps_executed)
    &&& after.status == (if outcome.exit is Some {
        Status::Finalized
    } else {
        Status::Active
    })
}

/// What a settled invocation leaves of the store: it reads what the store
/// before reads after the gas payment and then the committed actions; with
/// an exit no account is locked, without one the session holds them all.
pub open spec fn store_settled(
    before: &Session,
    store_before: &ProgramAccountStorage,
    store_after: &ProgramAccountStorage,
    operator: Address,
    used: u64,
    results: Option<(ExitStatus, Vec<Action>)>,
) -> bool {
    let charged = charged_gas(before.gas_used@, used as nat, before.gas_limit@);
    let exit = settled_exit(before, store_before, operator, used, results);
    &&& store_after.reads_after(
        store_before,
        seq![payment_action(before, operator, charged)] + settled_log(
            before,
            store_before,
            operator,
            used,
            results,
        ),
    )
    &&& exit is Some ==> !store_after.any_blocked()
    &&& exit is None ==> store_after.all_held_by(before.signature@)
}

/// What an invocation that settles leaves: of the session, the store and the
/// outcome, by what it was given.
pub open spec fn settled(
    before: &Session,
    after: &Session,
    store_before: &ProgramAccountStorage,
    store_after: &ProgramAccountStorage,
    operator: Address,
    steps_executed: u64,
    used: u64,
    results: Option<(ExitStatus, Vec<Action>)>,
    outcome: Outcome,
) -> bool {
    &&& outcome_settled(before, store_before, operator, steps_executed, used, results, outcome)
    &&& session_settled(before, after, steps_executed, used, outcome)
    &&& after.snapshot == before.snapshot
    &&& store_settled(before, store_before, store_after, operator, used, results)
}

/// The gas of a run on top of `gas`: its steps, and, where the run ended the
/// execution, what the steps of the whole execution fall short of the
/// minimum. `prior` are the steps that earlier invocations took.
pub open spec fn run_gas(gas: u64, prior: u64, steps: u64, ended: bool) -> u64 {
    let run = sat_add(gas, steps_cost(steps));
    if ended {
        sat_add(run, padding_cost(sat_add(prior, steps)))
    } else {
        run
    }
}

/// The gas of a Begin on top of `gas`: the flat fee of an iterative
/// execution, the upload of the payload and the run.
pub open spec fn begin_gas(gas: u64, rlp_len: usize, steps: u64, ended: bool) -> u64 {
    run_gas(
        sat_add(
            sat_add(sat_add(gas, LAST_ITERATION_COST), CANCEL_TRX_COST),
            transaction_size_cost(rlp_len),
        ),
        0,
        steps,
        ended,
    )
}

/// The gas of a Continue on top of `gas`, after `prior` steps of earlier
/// invocations: the run.
pub open spec fn continue_gas(gas: u64, prior: u64, steps: u64, ended: bool) -> u64 {
    run_gas(gas, prior, steps, ended)
}

/// The gas of an execution in one invocation on top of `gas`: the upload of
/// the payload and the run, which ends the execution.
pub open spec fn single_invocation_gas(rlp_len: usize, steps: u64, gas: u64) -> u64 {
    run_gas(sat_add(gas, transaction_size_cost(rlp_len)), 0, steps, true)
}

/// The session that a Begin opens, before its run is settled.
pub open spec fn begun(trx: &Transaction, caller: Address, snapshot: Vec<u8>) -> Session {
    Session {
        status: Status::Active,
        signature: trx.signature,
        caller,
        gas_limit: trx.gas_limit,
        gas_price: trx.gas_price,
        gas_used: U256 { hi: 0, lo: 0 },
        steps_executed: 0,
        snapshot,
    }
}

/// Why a transaction is not accepted for execution, if it is not: the
/// signature is not the caller's, the store rejects the transaction, an
/// account of the store is locked, or the caller cannot pay for `used` gas.
/// The first reason that holds counts.
pub open spec fn admission_error(
    account_storage: &ProgramAccountStorage,
    used: u64,
    trx: &Transaction,
    caller: Address,
) -> Option<Error> {
    if spec_caller_address(trx.hash@, trx.signature@) != Some(caller@) {
        Some(Error::InvalidSignature)
    } else if transaction_error(account_storage, caller, trx) is Some {
        transaction_error(account_storage, caller, trx)
    } else if account_storage.any_blocked() {
        Some(Error::AccountBlocked)
    } else if account_storage.balance_of(caller)@ < gas_payment(
        charged_gas(0, used as nat, trx.gas_limit@),
        trx.gas_price@,
    ) {
        Some(Error::InsufficientFunds)
    } else {
        None
    }
}

/// Why a Begin is rejected, if it is. The first reason that holds counts.
pub open spec fn begin_error(
    session: &Session,
    account_storage: &ProgramAccountStorage,
    gas: u64,
    trx: &Transaction,
    caller: Address,
    execution: Execution,
) -> Option<Error> {
    if session.status is Active {
        Some(Error::SessionActive)
    } else if session.status is Finalized && same_identity(session, trx.signature, caller) {
        Some(Error::AlreadyFinalized)
    } else {
        admission_error(
            account_storage,
            begin_gas(gas, trx.rlp_len, execution.steps_executed, execution.exit.spec_is_exit()),
            trx,
            caller,
        )
    }
}

/// Why a session cannot be continued with a budget of `step_count` steps, if
/// it cannot: it is not Active, or the budget is below the minimum and the
/// transaction pays a fee.
pub open spec fn budget_error(session: &Session, step_count: u64) -> Option<Error> {
    if !(session.status is Active) {
        Some(Error::SessionNotActive)
    } else if step_count < EVM_STEPS_MIN && session.gas_price@ > 0 {
        Some(Error::StepLimitBelowMinimum)
    } else {
        None
    }
}

/// Why a Continue is rejected, if it is. The first reason that holds counts.
pub open spec fn continue_error(
    session: &Session,
    account_storage: &ProgramAccountStorage,
    step_count: u64,
    gas: u64,
    execution: Execution,
) -> Option<Error> {
    if budget_error(session, step_count) is Some {
        budget_error(session, step_count)
    } else {
        settle_error(
            session,
            account_storage,
            continue_gas(
                gas,
                session.steps_executed,
                execution.steps_executed,
                execution.exit.spec_is_exit(),
            ),
        )
    }
}

/// Why a Cancel is rejected, if it is. The first reason that holds counts.
pub open spec fn cancel_error(session: &Session, account_storage: &ProgramAccountStorage) -> Option<
    Error,
> {
    if !(session.status is Active) {
        Some(Error::SessionNotActive)
    } else if !account_storage.all_held_by(session.signature@) {
        Some(Error::AccountBlocked)
    } else {
        None
    }
}

/// The gas that a Cancel charges: the fixed fee, where the caller holds the
/// payment for it; nothing where the caller does not, so that a session
/// whose caller is out of funds can still be ended and its accounts
/// released.
pub open spec fn cancel_gas(session: &Session, account_storage: &ProgramAccountStorage) -> nat {
    if account_storage.balance_of(session.caller)@ >= gas_payment(
        CANCEL_TRX_COST as nat,
        session.gas_price@,
    ) {
        CANCEL_TRX_COST as nat
    } else {
        0
    }
}

/// Why an execution in one invocation is rejected, if it is. The first
/// reason that holds counts.
pub open spec fn execute_error(
    account_storage: &ProgramAccountStorage,
    gas: u64,
    trx: &Transaction,
    caller: Address,
    execution: Execution,
) -> Option<Error> {
    if !execution.exit.spec_is_exit() {
        Some(Error::TooManySteps)
    } else {
        admission_error(
            account_storage,
            single_invocation_gas(trx.rlp_len, execution.steps_executed, gas),
            trx,
            caller,
        )
    }
}

/// Admits a transaction for execution: its signature must be the caller's,
/// the store must accept it, no account of the store may be locked, and the
/// caller must hold the payment for `used` gas.
fn check_admission(account_storage: &ProgramAccountStorage, used: u64, trx: &Transaction, caller: &Address) -> (r:
    Result<(), Error>)
    ensures
        r is Err <==> admission_error(account_storage, used, trx, *caller) is Some,
        r is Err ==> Some(r.unwrap_err()) == admission_error(account_storage, used, trx, *caller),
{
    match recover_caller_address(&trx.hash, &trx.signature) {
        Some(signer) => {
            if !signer.equals(caller) {
                return Err(Error::InvalidSignature);
            }
        },
        None => {
            return Err(Error::InvalidSignature);
        },
    }
    match check_ethereum_transaction(account_storage, caller, trx) {
        Err(e) => {
            return Err(e);
        },
        Ok(()) => {},
    }
    match account_storage.check_for_blocked_accounts() {
        Err(e) => {
            return Err(e);
        },
        Ok(()) => {},
    }
    let (charged, _) = charge(U256::zero(), U256::from_u64(used), trx.gas_limit);
    let payment = charged.saturating_mul(trx.gas_price);
    if account_storage.balance(caller).lt(&payment) {
        return Err(Error::InsufficientFunds);
    }
    Ok(())
}

/// Charges a run on the meter: its steps, and, where the run ended the
/// execution, what the steps of the whole execution fall short of the
/// minimum.
fn record_run(gasometer: &mut Gasometer, prior: u64, steps: u64, ended: bool)
    ensures
        final(gasometer).charged_since(*old(gasometer)),
        final(gasometer).gas == run_gas(old(gasometer).gas, prior, steps, ended),
{
    gasometer.record_evm_steps(steps);
    if ended {
        gasometer.pad_evm_steps(prior.saturating_add(steps));
    }
}

/// Begins a transaction on an Empty session, or on a Finalized session that
/// another signature or caller finalized, with what the first run of the
/// interpreter reported. The signature must be the caller's, the transaction
/// is validated against the store, no account of the store may be locked,
/// and the caller must cover the gas of the Begin: the flat fee of an
/// iterative execution, the upload of the payload and the run, on top of
/// what the meter holds. The session is opened for the transaction with the
/// snapshot of the run and holds the lock on every account of the store, and
/// the invocation is settled as [`finalize`] says: with `StepLimitReached`
/// the session stays Active, with any other exit the transaction ends in
/// this invocation. A rejected Begin changes nothing.
pub fn do_begin(
    accounts: &Accounts,
    session: &mut Session,
    account_storage: &mut ProgramAccountStorage,
    gasometer: Gasometer,
    trx: &Transaction,
    caller: Address,
    execution: Execution,
) -> (r: Result<Outcome, Error>)
    ensures
        r is Err <==> begin_error(
            old(session),
            old(account_storage),
            gasometer.gas,
            trx,
            caller,
            execution,
        ) is Some,
        r is Err ==> Some(r.unwrap_err()) == begin_error(
            old(session),
            old(account_storage),
            gasometer.gas,
            trx,
            caller,
            execution,
        ),
        r is Err ==> *final(session) == *old(session) && *final(account_storage) == *old(
            account_storage,
        ),
        r is Ok ==> begin_settled(
            final(session),
            old(account_storage),
            final(account_storage),
            accounts.operator_ether_account,
            gasometer.gas,
            trx,
            caller,
            execution,
            r.unwrap(),
        ),
{
    match is_new_transaction(session, &trx.signature, &caller) {
        Err(e) => {
            return Err(e);
        },
        Ok(false) => {
            return Err(Error::SessionActive);
        },
        Ok(true) => {},
    }
    let Execution { steps_executed, exit, snapshot, actions } = execution;
    let mut gasometer = gasometer;
    gasometer.record_iterative_overhead();
    gasometer.record_transaction_size(trx);
    record_run(&mut gasometer, 0, steps_executed, exit.is_exit());
    match check_admission(account_storage, gasometer.gas, trx, &caller) {
        Err(e) => {
            return Err(e);
        },
        Ok(()) => {},
    }
    account_storage.block_accounts(Some(trx.signature));
    let ghost locked = *account_storage;
    let mut opened = Session {
        status: Status::Active,
        signature: trx.signature,
        caller,
        gas_limit: trx.gas_limit,
        gas_price: trx.gas_price,
        gas_used: U256::zero_word(),
        steps_executed: 0,
        snapshot,
    };
    let ghost before = opened;
    let ghost results = Some((exit, actions));
    proof {
        lemma_settlement_of_same_reads(
            &before,
            &locked,
            old(account_storage),
            accounts.operator_ether_account,
            gasometer.gas,
            results,
        );
    }
    let r = finalize(
        steps_executed,
        accounts,
        &mut opened,
        account_storage,
        Some((exit, actions)),
        gasometer,
    );
    proof {
        let used = gasometer.gas;
        let charged = charged_gas(0, used as nat, trx.gas_limit@);
        account_storage.lemma_reads_after_from_same(
            locked,
            *old(account_storage),
            seq![payment_action(&before, accounts.operator_ether_account, charged)]
                + settled_log(&before, &locked, accounts.operator_ether_account, used, results),
        );
    }
    match r {
        Ok(outcome) => {
            *session = opened;
            Ok(outcome)
        },
        Err(e) => Err(e),
    }
}

/// What a Begin that is accepted leaves: the session opened for the
/// transaction and settled with the run, its snapshot kept.
pub open spec fn begin_settled(
    after: &Session,
    store_before: &ProgramAccountStorage,
    store_after: &ProgramAccountStorage,
    operator: Address,
    gas: u64,
    trx: &Transaction,
    caller: Address,
    execution: Execution,
    outcome: Outcome,
) -> bool {
    let opened = begun(trx, caller, execution.snapshot);
    let used = begin_gas(
        gas,
        trx.rlp_len,
        execution.steps_executed,
        execution.exit.spec_is_exit(),
    );
    let results = Some((execution.exit, execution.actions));
    &&& outcome_settled(
        &opened,
        store_before,
        operator,
        execution.steps_executed,
        used,
        results,
        outcome,
    )
    &&& session_settled(&opened, after, execution.steps_executed, used, outcome)
    &&& after.snapshot == execution.snapshot
    &&& store_settled(&opened, store_before, store_after, operator, used, results)
}

/// Two stores that read the same balances settle an invocation with the
/// same exit and the same committed actions.
pub proof fn lemma_settlement_of_same_reads(
    before: &Session,
    store: &ProgramAccountStorage,
    other: &ProgramAccountStorage,
    operator: Address,
    used: u64,
    results: Option<(ExitStatus, Vec<Action>)>,
)
    requires
        store.same_balances(other),
    ensures
        settled_exit(before, store, operator, used, results) == settled_exit(
            before,
            other,
            operator,
            used,
            results,
        ),
        settled_log(before, store, operator, used, results) == settled_log(
            before,
            other,
            operator,
            used,
            results,
        ),
{
    let pay = payment_action(
        before,
        operator,
        charged_gas(before.gas_used@, used as nat, before.gas_limit@),
    );
    let log = results_log(results);
    assert forall|i: int| 0 <= i < log.len() implies covered_at(pay, log, store, i) == covered_at(
        pay,
        log,
        other,
        i,
    ) by {
        match log[i] {
            Action::Transfer { source, .. } => {
                assert(store.balance_of(source) == other.balance_of(source));
            },
            _ => {},
        }
    }
    assert(covered(pay, log, store) == covered(pay, log, other));
}

/// Checks that a session can be continued with a budget of `step_count`
/// steps: it must be Active, and a budget below the minimum is taken only
/// where the transaction pays no fee.
pub fn check_continue(session: &Session, step_count: u64) -> (r: Result<(), Error>)
    ensures
        r is Err <==> budget_error(session, step_count) is Some,
        r is Err ==> Some(r.unwrap_err()) == budget_error(session, step_count),
{
    if session.status != Status::Active {
        return Err(Error::SessionNotActive);
    }
    if step_count < EVM_STEPS_MIN && !session.gas_price.is_zero() {
        return Err(Error::StepLimitBelowMinimum);
    }
    Ok(())
}

/// Continues an Active session with what one run of the interpreter
/// reported. A budget of `step_count` below the minimum is rejected unless
/// the transaction pays no fee, and the session must hold the lock on every
/// account of the store. The steps of the run are charged on top of what the
/// meter holds; a run that ends the execution is also charged what the steps
/// of the whole execution fall short of the minimum. The invocation is
/// settled as [`finalize`] says: with `StepLimitReached` the session stays
/// Active, with any other exit it ends in this invocation. A run that took
/// steps leaves its snapshot in the session. A rejected Continue changes
/// nothing.
pub fn do_continue(
    step_count: u64,
    accounts: &Accounts,
    session: &mut Session,
    account_storage: &mut ProgramAccountStorage,
    gasometer: Gasometer,
    execution: Execution,
) -> (r: Result<Outcome, Error>)
    ensures
        r is Err <==> continue_error(
            old(session),
            old(account_storage),
            step_count,
            gasometer.gas,
            execution,
        ) is Some,
        r is Err ==> Some(r.unwrap_err()) == continue_error(
            old(session),
            old(account_storage),
            step_count,
            gasometer.gas,
            execution,
        ),
        r is Err ==> *final(session) == *old(session) && *final(account_storage) == *old(
            account_storage,
        ),
        r is Ok ==> continue_settled(
            old(session),
            final(session),
            old(account_storage),
            final(account_storage),
            accounts.operator_ether_account,
            gasometer.gas,
            execution,
            r.unwrap(),
        ),
{
    match check_continue(session, step_count) {
        Err(e) => {
            return Err(e);
        },
        Ok(()) => {},
    }
    let Execution { steps_executed, exit, snapshot, actions } = execution;
    let mut gasometer = gasometer;
    record_run(&mut gasometer, session.steps_executed, steps_executed, exit.is_exit());
    let outcome = match finalize(
        steps_executed,
        accounts,
        session,
        account_storage,
        Some((exit, actions)),
        gasometer,
    ) {
        Err(e) => {
            return Err(e);
        },
        Ok(outcome) => outcome,
    };
    if steps_executed > 0 {
        session.snapshot = snapshot;
    }
    Ok(outcome)
}

/// What a Continue that is accepted leaves: the session settled with the
/// run, and the snapshot of a run that took steps.
pub open spec fn continue_settled(
    before: &Session,
    after: &Session,
    store_before: &ProgramAccountStorage,
    store_after: &ProgramAccountStorage,
    operator: Address,
    gas: u64,
    execution: Execution,
    outcome: Outcome,
) -> bool {
    let used = continue_gas(
        gas,
        before.steps_executed,
        execution.steps_executed,
        execution.exit.spec_is_exit(),
    );
    let results = Some((execution.exit, execution.actions));
    &&& outcome_settled(
        before,
        store_before,
        operator,
        execution.steps_executed,
        used,
        results,
        outcome,
    )
    &&& session_settled(before, after, execution.steps_executed, used, outcome)
    &&& after.snapshot == (if execution.steps_executed > 0 {
        execution.snapshot
    } else {
        before.snapshot
    })
    &&& store_settled(before, store_before, store_after, operator, used, results)
}

/// Cancels an Active session that holds the lock on every account of the
/// store: the caller pays the fixed cancellation fee, every account is
/// released, what the interpreter had pending is dropped, and the session is
/// Finalized. A caller who does not hold the payment for the fee pays
/// nothing, and the session ends all the same. No pending action reaches the
/// store: it reads the nonce, code and storage that it read before. A
/// rejected Cancel changes nothing.
pub fn do_cancel(
    accounts: &Accounts,
    session: &mut Session,
    account_storage: &mut ProgramAccountStorage,
) -> (r: Result<Outcome, Error>)
    ensures
        r is Err <==> cancel_error(old(session), old(account_storage)) is Some,
        r is Err ==> Some(r.unwrap_err()) == cancel_error(old(session), old(account_storage)),
        r is Err ==> *final(session) == *old(session) && *final(account_storage) == *old(
            account_storage,
        ),
        r is Ok ==> r.unwrap().treasury_payment == 0 && r.unwrap().exit is None,
        r is Ok ==> r.unwrap().used_gas@ == cancel_gas(old(session), old(account_storage)),
        r is Ok ==> r.unwrap().gas_payment@ == gas_payment(
            cancel_gas(old(session), old(account_storage)),
            old(session).gas_price@,
        ),
        r is Ok ==> final(session).same_transaction(old(session)),
        r is Ok ==> final(session).status == Status::Finalized,
        r is Ok ==> final(session).snapshot@.len() == 0,
        r is Ok ==> final(session).steps_executed == old(session).steps_executed,
        r is Ok ==> final(session).gas_used@ == saturating_sum(
            old(session).gas_used@,
            cancel_gas(old(session), old(account_storage)),
        ),
        r is Ok ==> final(account_storage).reads_after(
            old(account_storage),
            seq![
                payment_action(
                    old(session),
                    accounts.operator_ether_account,
                    cancel_gas(old(session), old(account_storage)),
                ),
            ],
        ),
        r is Ok ==> final(account_storage).same_contracts(old(account_storage)),
        r is Ok ==> !final(account_storage).any_blocked(),
{
    if session.status != Status::Active {
        return Err(Error::SessionNotActive);
    }
    match account_storage.check_accounts_held(&session.signature) {
        Err(e) => {
            return Err(e);
        },
        Ok(()) => {},
    }
    let fee = U256::from_u64(CANCEL_TRX_COST);
    let held = account_storage.balance(&session.caller);
    let charged = if held.lt(&fee.saturating_mul(session.gas_price)) {
        U256::zero()
    } else {
        fee
    };
    let payment = charged.saturating_mul(session.gas_price);
    proof {
        assert(gas_payment(0, session.gas_price@) == 0) by (nonlinear_arith);
    }
    match pay_gas_cost(charged, accounts.operator_ether_account, session, account_storage) {
        Err(e) => {
            return Err(e);
        },
        Ok(()) => {},
    }
    let ghost paid = *account_storage;
    let ghost pay = payment_action(old(session), accounts.operator_ether_account, charged@);
    account_storage.block_accounts(None);
    session.status = Status::Finalized;
    session.snapshot = Vec::new();
    proof {
        paid.lemma_reads_after_nothing();
        paid.lemma_reads_after_prepend(paid, *old(account_storage), pay, Seq::empty());
        assert(seq![pay] + Seq::<Action>::empty() =~= seq![pay]);
        account_storage.lemma_reads_after_same(paid, *old(account_storage), seq![pay]);
        account_storage.lemma_transfer_keeps_contracts(*old(account_storage), pay);
    }
    Ok(Outcome { treasury_payment: 0, used_gas: charged, gas_payment: payment, exit: None })
}

/// Executes a transaction in one invocation, with what the one run of the
/// interpreter reported; the run must have ended. The transaction is
/// admitted as a Begin admits it. The upload of the payload and the run,
/// padded to the minimum, are charged on top of what the meter holds,
/// without the flat fee of an iterative execution, and the invocation is
/// settled as [`finalize`] says. No session is kept and no account stays
/// locked. A rejected execution changes nothing.
pub fn do_execute(
    accounts: &Accounts,
    account_storage: &mut ProgramAccountStorage,
    gasometer: Gasometer,
    trx: &Transaction,
    caller: Address,
    execution: Execution,
) -> (r: Result<Outcome, Error>)
    ensures
        r is Err <==> execute_error(old(account_storage), gasometer.gas, trx, caller, execution)
            is Some,
        r is Err ==> Some(r.unwrap_err()) == execute_error(
            old(account_storage),
            gasometer.gas,
            trx,
            caller,
            execution,
        ),
        r is Err ==> *final(account_storage) == *old(account_storage),
        r is Ok ==> r.unwrap().exit is Some,
        r is Ok ==> outcome_settled(
            &begun(trx, caller, execution.snapshot),
            old(account_storage),
            accounts.operator_ether_account,
            execution.steps_executed,
            single_invocation_gas(trx.rlp_len, execution.steps_executed, gasometer.gas),
            Some((execution.exit, execution.actions)),
            r.unwrap(),
        ),
        r is Ok ==> store_settled(
            &begun(trx, caller, execution.snapshot),
            old(account_storage),
            final(account_storage),
            accounts.operator_ether_account,
            single_invocation_gas(trx.rlp_len, execution.steps_executed, gasometer.gas),
            Some((execution.exit, execution.actions)),
        ),
{
    let Execution { steps_executed, exit, snapshot, actions } = execution;
    if !exit.is_exit() {
        return Err(Error::TooManySteps);
    }
    let mut gasometer = gasometer;
    gasometer.record_transaction_size(trx);
    record_run(&mut gasometer, 0, steps_executed, true);
    match check_admission(account_storage, gasometer.gas, trx, &caller) {
        Err(e) => {
            return Err(e);
        },
        Ok(()) => {},
    }
    account_storage.block_accounts(Some(trx.signature));
    let ghost locked = *account_storage;
    let mut opened = Session {
        status: Status::Active,
        signature: trx.signature,
        caller,
        gas_limit: trx.gas_limit,
        gas_price: trx.gas_price,
        gas_used: U256::zero_word(),
        steps_executed: 0,
        snapshot,
    };
    let ghost before = opened;
    let ghost results = Some((exit, actions));
    proof {
        lemma_settlement_of_same_reads(
            &before,
            &locked,
            old(account_storage),
            accounts.operator_ether_account,
            gasometer.gas,
            results,
        );
    }
    let r = finalize(
        steps_executed,
        accounts,
        &mut opened,
        account_storage,
        Some((exit, actions)),
        gasometer,
    );
    proof {
        let used = gasometer.gas;
        let charged = charged_gas(0, used as nat, trx.gas_limit@);
        account_storage.lemma_reads_after_from_same(
            locked,
            *old(account_storage),
            seq![payment_action(&before, accounts.operator_ether_account, charged)]
                + settled_log(&before, &locked, accounts.operator_ether_account, used, results),
        );
    }
    r
}

} // verus!
