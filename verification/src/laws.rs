//! What holds of the cost model and of the state machine, whatever the
//! transaction.

use crate::account_storage::program::held_by;
use crate::account_storage::ProgramAccountStorage;
use crate::config::EVM_STEPS_MIN;
use crate::executor::action::{balance_after, storage_after, Action};
use crate::executor::exit_status::ExitStatus;
use crate::executor::gasometer::{
    iterative_overhead, padding_cost, sat_add, steps_cost, storage_write_cost,
    transaction_size_cost, EVM_STEP_COST,
};
use crate::instruction::transaction::{
    admission_error, begin_error, begin_gas, begun, charged_gas, continue_gas, covered,
    covered_at, over_limit, payment_action, same_identity, settled_exit, settled_log,
    single_invocation_gas, store_settled, Execution,
};
use crate::rent::Rent;
use crate::session::Session;
use crate::transaction::Transaction;
use crate::types::Address;
use crate::u256::{saturating_sum, u256_max, U256};
use vstd::prelude::*;

verus! {

/// The sum of the amounts.
pub open spec fn sum(amounts: Seq<u64>) -> nat
    decreases amounts.len(),
{
    if amounts.len() == 0 {
        0
    } else {
        sum(amounts.drop_last()) + amounts.last() as nat
    }
}

/// The gas of Continues that were suspended: the `i`-th took `steps[i]`
/// steps, on a meter that held `recorded[i]` for what the interpreter had it
/// record.
pub open spec fn suspended_gas(steps: Seq<u64>, recorded: Seq<u64>) -> nat
    decreases steps.len(),
{
    if steps.len() == 0 || recorded.len() == 0 {
        0
    } else {
        suspended_gas(steps.drop_last(), recorded.drop_last()) + continue_gas(
            recorded.last(),
            0,
            steps.last(),
            false,
        ) as nat
    }
}

/// The gas of an iterative execution: a Begin whose run took `first` steps
/// and was suspended, Continues that were suspended, and a last Continue
/// that ended the execution.
pub open spec fn iterative_gas(rlp_len: usize, first: u64, steps: Seq<u64>, recorded: Seq<u64>) -> nat {
    begin_gas(0, rlp_len, first, false) as nat + suspended_gas(
        steps.drop_last(),
        recorded.drop_last(),
    ) + continue_gas(
        recorded.last(),
        (first + sum(steps.drop_last())) as u64,
        steps.last(),
        true,
    ) as nat
}

/// The gas that a session has used after invocations that used `uses`, one
/// after the other, from `paid` on.
pub open spec fn ledger_after(paid: nat, uses: Seq<u64>, limit: nat) -> nat
    decreases uses.len(),
{
    if uses.len() == 0 {
        paid
    } else {
        let before = ledger_after(paid, uses.drop_last(), limit);
        saturating_sum(before, charged_gas(before, uses.last() as nat, limit))
    }
}

/// An execution of fewer steps than the minimum is charged what an
/// execution of the minimum number of steps is charged.
pub proof fn law_short_execution_pays_the_minimum(rlp_len: usize, gas: u64, steps: u64)
    requires
        steps < EVM_STEPS_MIN,
    ensures
        single_invocation_gas(rlp_len, steps, gas) == single_invocation_gas(
            rlp_len,
            EVM_STEPS_MIN,
            gas,
        ),
{
    assert(EVM_STEP_COST == 10);
    assert(steps_cost(steps) == steps * EVM_STEP_COST);
    assert(padding_cost(steps) == (EVM_STEPS_MIN - steps) * EVM_STEP_COST);
    assert(steps_cost(EVM_STEPS_MIN) == EVM_STEPS_MIN * EVM_STEP_COST);
    assert(padding_cost(EVM_STEPS_MIN) == 0);
}

/// A transfer of a log whose transfers are funded takes from its source
/// what it gives to its target: the balance of the source falls by the
/// whole value.
pub proof fn law_funded_transfer_takes_its_value(
    pay: Action,
    log: Seq<Action>,
    store: ProgramAccountStorage,
    i: int,
    source: Address,
    target: Address,
    value: U256,
)
    requires
        0 <= i < log.len(),
        covered(pay, log, &store),
        log[i] == (Action::Transfer { source, target, value }),
        source@ != target@,
    ensures
        balance_after(seq![pay] + log.take(i + 1), source, store.balance_of(source)@) + value@
            == balance_after(seq![pay] + log.take(i), source, store.balance_of(source)@),
{
    let next = seq![pay] + log.take(i + 1);
    assert(next.drop_last() =~= seq![pay] + log.take(i));
    assert(next.last() == log[i]);
    assert(covered_at(pay, log, &store, i));
}

/// After a nonzero value was written to a slot, a second write of a nonzero
/// value to that slot is charged no rent: the overlay reads the first.
pub proof fn law_second_write_is_free(
    rent: Rent,
    log: Seq<Action>,
    address: Address,
    key: U256,
    first: U256,
    second: U256,
    base: U256,
)
    requires
        first@ != 0,
    ensures
        storage_write_cost(
            rent,
            key,
            second,
            storage_after(
                log.push(Action::SetStorage { address, key, value: first }),
                address,
                key,
                base,
            ),
        ) == 0,
{
    let written = log.push(Action::SetStorage { address, key, value: first });
    assert(written.last() == Action::SetStorage { address, key, value: first });
    assert(storage_after(written, address, key, base) == first);
}

/// The charge never takes the gas used past the limit, and never lowers it:
/// where the use passes the limit, or the sum overflows, the gas used ends at
/// the limit.
pub proof fn law_charge_stays_within_the_limit(paid: nat, used: nat, limit: nat)
    requires
        paid <= limit <= u256_max(),
    ensures
        paid <= saturating_sum(paid, charged_gas(paid, used, limit)) <= limit,
        over_limit(paid, used, limit) ==> saturating_sum(paid, charged_gas(paid, used, limit))
            == limit,
        !over_limit(paid, used, limit) ==> saturating_sum(paid, charged_gas(paid, used, limit))
            == paid + used,
{
}

/// A total of paid and used gas that does not fit in 256 bits passes every
/// limit: the invocation is charged exactly what the limit leaves, and the
/// gas used ends at the limit.
pub proof fn law_overflow_is_out_of_gas(paid: nat, used: nat, limit: nat)
    requires
        paid <= limit <= u256_max(),
        paid + used > u256_max(),
    ensures
        over_limit(paid, used, limit),
        charged_gas(paid, used, limit) == limit - paid,
        saturating_sum(paid, charged_gas(paid, used, limit)) == limit,
{
}

/// An Empty session, and a Finalized session that another signature or
/// caller finalized, takes a Begin as a fresh one: it is rejected only for
/// what any transaction is rejected for, and then carries nothing of the
/// transaction before.
pub proof fn law_fresh_begin(
    session: Session,
    store: ProgramAccountStorage,
    gas: u64,
    trx: Transaction,
    caller: Address,
    execution: Execution,
)
    requires
        session.status is Empty || (session.status is Finalized && !same_identity(
            &session,
            trx.signature,
            caller,
        )),
    ensures
        begin_error(&session, &store, gas, &trx, caller, execution) == admission_error(
            &store,
            begin_gas(gas, trx.rlp_len, execution.steps_executed, execution.exit.spec_is_exit()),
            &trx,
            caller,
        ),
        begun(&trx, caller, execution.snapshot).gas_used@ == 0,
        begun(&trx, caller, execution.snapshot).signature == trx.signature,
        begun(&trx, caller, execution.snapshot).caller == caller,
{
}

/// While the invocations stay within the limit, the gas that the session has
/// used is the sum of what they used.
pub proof fn law_ledger_adds_up(paid: nat, uses: Seq<u64>, limit: nat)
    requires
        paid + sum(uses) <= limit <= u256_max(),
    ensures
        ledger_after(paid, uses, limit) == paid + sum(uses),
    decreases uses.len(),
{
    if uses.len() > 0 {
        law_ledger_adds_up(paid, uses.drop_last(), limit);
    }
}

/// The gas of suspended Continues is what they had recorded and the price
/// of all their steps.
proof fn lemma_suspended_gas(steps: Seq<u64>, recorded: Seq<u64>)
    requires
        steps.len() == recorded.len(),
        sum(recorded) + sum(steps) * EVM_STEP_COST <= u64::MAX,
    ensures
        suspended_gas(steps, recorded) == sum(recorded) + sum(steps) * EVM_STEP_COST,
    decreases steps.len(),
{
    assert(EVM_STEP_COST == 10);
    if steps.len() > 0 {
        let head = steps.drop_last();
        assert(sum(steps) == sum(head) + steps.last());
        assert(sum(recorded) == sum(recorded.drop_last()) + recorded.last());
        lemma_suspended_gas(head, recorded.drop_last());
        assert(steps_cost(steps.last()) == steps.last() * EVM_STEP_COST);
    }
}

/// A transaction that runs as a suspended Begin and Continues, the last of
/// which ends it, is charged what one invocation with all the steps and all
/// that the interpreter had recorded is charged, and the flat fee of an
/// iterative execution once, however the steps were split. No amount may
/// reach the largest, where the sums are held.
pub proof fn law_iterative_gas(rlp_len: usize, first: u64, steps: Seq<u64>, recorded: Seq<u64>)
    requires
        steps.len() == recorded.len(),
        steps.len() >= 1,
        transaction_size_cost(rlp_len) + iterative_overhead() + sum(recorded) + (first + sum(
            steps,
        )) * EVM_STEP_COST + EVM_STEPS_MIN * EVM_STEP_COST <= u64::MAX,
    ensures
        iterative_gas(rlp_len, first, steps, recorded) == single_invocation_gas(
            rlp_len,
            (first + sum(steps)) as u64,
            sum(recorded) as u64,
        ) + iterative_overhead(),
{
    assert(EVM_STEP_COST == 10);
    let head = steps.drop_last();
    let total = first + sum(steps);
    assert(sum(steps) == sum(head) + steps.last());
    assert(sum(recorded) == sum(recorded.drop_last()) + recorded.last());
    lemma_suspended_gas(head, recorded.drop_last());
    assert(steps_cost(first) == first * EVM_STEP_COST);
    assert(steps_cost(steps.last()) == steps.last() * EVM_STEP_COST);
    assert(steps_cost(total as u64) == total * EVM_STEP_COST);
    assert(sat_add((first + sum(head)) as u64, steps.last()) == total);
    if total < EVM_STEPS_MIN {
        assert(padding_cost(total as u64) == (EVM_STEPS_MIN - total) * EVM_STEP_COST);
    }
}

/// A transaction that ends in its Begin is charged what one invocation with
/// its steps is charged, padding included, and the flat fee of an iterative
/// execution once. No amount may reach the largest, where the sums are held.
pub proof fn law_begin_that_ends(rlp_len: usize, gas: u64, steps: u64)
    requires
        gas + transaction_size_cost(rlp_len) + iterative_overhead() + steps * EVM_STEP_COST
            + EVM_STEPS_MIN * EVM_STEP_COST <= u64::MAX,
    ensures
        begin_gas(gas, rlp_len, steps, true) == single_invocation_gas(rlp_len, steps, gas)
            + iterative_overhead(),
{
    assert(EVM_STEP_COST == 10);
    assert(steps_cost(steps) == steps * EVM_STEP_COST);
    if steps < EVM_STEPS_MIN {
        assert(padding_cost(steps) == (EVM_STEPS_MIN - steps) * EVM_STEP_COST);
    }
}

/// A lock has one holder: two sessions that both hold the lock on every
/// account of a store that holds an account run the same transaction.
pub proof fn law_one_session_holds_the_lock(
    store: ProgramAccountStorage,
    first: Session,
    second: Session,
)
    requires
        store.accounts@.len() > 0,
        store.all_held_by(first.signature@),
        store.all_held_by(second.signature@),
    ensures
        first.signature@ == second.signature@,
{
    assert(held_by(store.accounts@[0].lock, first.signature@));
    assert(held_by(store.accounts@[0].lock, second.signature@));
}

/// A store on which a session holds a lock admits no Begin: whatever the
/// session and the transaction, the Begin is rejected.
pub proof fn law_locked_accounts_reject_begin(
    store: ProgramAccountStorage,
    holder: Session,
    session: Session,
    gas: u64,
    trx: Transaction,
    caller: Address,
    execution: Execution,
)
    requires
        store.accounts@.len() > 0,
        store.all_held_by(holder.signature@),
    ensures
        begin_error(&session, &store, gas, &trx, caller, execution) is Some,
{
    assert(held_by(store.accounts@[0].lock, holder.signature@));
    assert(store.accounts@[0].lock is Some);
    assert(store.any_blocked());
}

/// An invocation that settles without an exit commits nothing: the store
/// reads the nonce, code and storage that it read before, and only the gas
/// payment has moved.
pub proof fn law_suspension_keeps_contracts(
    session: Session,
    store_before: ProgramAccountStorage,
    store_after: ProgramAccountStorage,
    operator: Address,
    used: u64,
    results: Option<(ExitStatus, Vec<Action>)>,
)
    requires
        store_settled(&session, &store_before, &store_after, operator, used, results),
        settled_exit(&session, &store_before, operator, used, results) is None,
    ensures
        store_after.same_contracts(&store_before),
{
    let charged = charged_gas(session.gas_used@, used as nat, session.gas_limit@);
    let pay = payment_action(&session, operator, charged);
    let log = settled_log(&session, &store_before, operator, used, results);
    assert(log =~= Seq::<Action>::empty());
    assert(seq![pay] + log =~= seq![pay]);
    store_after.lemma_transfer_keeps_contracts(store_before, pay);
}

} // verus!
