//! What an emulated execution reports: its estimate of the gas and the
//! summary of its exit.

use crate::config::{EVM_STEPS_MIN, PAYMENT_TO_TREASURE};
use crate::executor::exit_status::ExitStatus;
use crate::executor::gasometer::{sat_add, sat_mul, saturating_mul, LAMPORTS_PER_SIGNATURE};
use vstd::prelude::*;

verus! {

/// How an emulated execution ended, as it is reported.
#[derive(Clone, Copy, Debug, PartialEq, Eq, Structural)]
pub enum EmulationStatus {
    /// The execution returned, stopped or destroyed the contract.
    Succeed,
    /// The execution reverted or failed.
    Revert,
}

/// The number of iterations that `steps` take: each covers the minimum
/// number of steps.
pub open spec fn iterations(steps: u64) -> u64 {
    if steps % EVM_STEPS_MIN == 0 {
        steps / EVM_STEPS_MIN
    } else {
        (steps / EVM_STEPS_MIN + 1) as u64
    }
}

/// The estimate of the gas of an execution: for each iteration a signature
/// and a treasury deposit, for the first and the last invocation a signature
/// each, and the costs of the actions and of the account operations. The sum
/// is held at the largest amount.
pub open spec fn spec_emulated_gas(steps_executed: u64, actions_gas: u64, accounts_gas: u64) -> u64 {
    let steps_gas = sat_mul(
        iterations(steps_executed),
        sat_add(LAMPORTS_PER_SIGNATURE, PAYMENT_TO_TREASURE),
    );
    let begin_end_gas = sat_mul(2, LAMPORTS_PER_SIGNATURE);
    sat_add(sat_add(sat_add(steps_gas, begin_end_gas), actions_gas), accounts_gas)
}

/// Estimates the gas of an execution that took `steps_executed` steps.
pub fn emulated_gas(steps_executed: u64, actions_gas: u64, accounts_gas: u64) -> (r: u64)
    ensures
        r == spec_emulated_gas(steps_executed, actions_gas, accounts_gas),
{
    let whole: u64 = steps_executed / EVM_STEPS_MIN;
    let max_iterations: u64 = if steps_executed % EVM_STEPS_MIN == 0 {
        whole
    } else {
        whole + 1
    };
    let steps_gas: u64 = saturating_mul(
        max_iterations,
        LAMPORTS_PER_SIGNATURE.saturating_add(PAYMENT_TO_TREASURE),
    );
    let begin_end_gas: u64 = saturating_mul(2, LAMPORTS_PER_SIGNATURE);
    steps_gas.saturating_add(begin_end_gas).saturating_add(actions_gas).saturating_add(accounts_gas)
}

/// The data and the status that an exit is reported with, if the execution
/// ended: `Return` succeeds with its data, `Stop` and `SelfDestruct` succeed
/// without data, `Revert` reverts with its data, and the failures revert
/// without data. A suspended execution has nothing to report.
pub open spec fn spec_exit_summary(status: ExitStatus) -> Option<(Seq<u8>, EmulationStatus)> {
    match status {
        ExitStatus::Return(data) => Some((data@, EmulationStatus::Succeed)),
        ExitStatus::Revert(data) => Some((data@, EmulationStatus::Revert)),
        ExitStatus::Stop => Some((Seq::empty(), EmulationStatus::Succeed)),
        ExitStatus::SelfDestruct => Some((Seq::empty(), EmulationStatus::Succeed)),
        ExitStatus::OutOfFunds => Some((Seq::empty(), EmulationStatus::Revert)),
        ExitStatus::OutOfGas => Some((Seq::empty(), EmulationStatus::Revert)),
        ExitStatus::StepLimitReached => None,
    }
}

/// Sums up an exit for the report.
pub fn exit_summary(status: ExitStatus) -> (r: Option<(Vec<u8>, EmulationStatus)>)
    ensures
        r is Some <==> spec_exit_summary(status) is Some,
        r is Some ==> r.unwrap().0@ == spec_exit_summary(status).unwrap().0,
        r is Some ==> r.unwrap().1 == spec_exit_summary(status).unwrap().1,
{
    match status {
        ExitStatus::Return(data) => Some((data, EmulationStatus::Succeed)),
        ExitStatus::Revert(data) => Some((data, EmulationStatus::Revert)),
        ExitStatus::Stop => Some((Vec::new(), EmulationStatus::Succeed)),
        ExitStatus::SelfDestruct => Some((Vec::new(), EmulationStatus::Succeed)),
        ExitStatus::OutOfFunds => Some((Vec::new(), EmulationStatus::Revert)),
        ExitStatus::OutOfGas => Some((Vec::new(), EmulationStatus::Revert)),
        ExitStatus::StepLimitReached => None,
    }
}

} // verus!
