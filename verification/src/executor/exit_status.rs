//! How a run of the interpreter ends.

use vstd::prelude::*;

verus! {

/// What the interpreter reports when it stops.
#[derive(Clone, Debug, PartialEq, Eq)]
pub enum ExitStatus {
    /// The code ran to its end.
    Stop,
    /// The code returned data.
    Return(Vec<u8>),
    /// The code reverted, with data.
    Revert(Vec<u8>),
    /// The contract destroyed itself.
    SelfDestruct,
    /// The step budget ran out: the execution is suspended, not ended.
    StepLimitReached,
    /// The caller could not fund the call when it was set up.
    OutOfFunds,
    /// The gas limit does not cover the cost.
    OutOfGas,
}

impl ExitStatus {
    /// Whether the status ends the transaction.
    pub open spec fn spec_is_exit(&self) -> bool {
        !(self is StepLimitReached)
    }

    /// Whether the pending actions are committed with this status: for
    /// `Stop`, `Return` and `SelfDestruct`.
    pub open spec fn spec_commits(&self) -> bool {
        self is Stop || self is Return || self is SelfDestruct
    }

    /// The exit that stands from an earlier run: an execution that has ended
    /// is not run again, a suspended one is.
    pub open spec fn spec_standing(stored: Option<ExitStatus>) -> Option<ExitStatus> {
        match stored {
            Some(status) => if status.spec_is_exit() {
                Some(status)
            } else {
                None
            },
            None => None,
        }
    }

    /// Decides whether the interpreter runs: it does not where an earlier
    /// run has left an exit, which then stands.
    pub fn standing(stored: Option<ExitStatus>) -> (r: Option<ExitStatus>)
        ensures
            r == Self::spec_standing(stored),
    {
        match stored {
            Some(status) => if status.is_exit() {
                Some(status)
            } else {
                None
            },
            None => None,
        }
    }

    /// The exit that a run leaves to keep: the one it ended the execution
    /// with, and none where it was suspended.
    pub fn after_run(result: &Result<(), ExitStatus>) -> (r: Option<&ExitStatus>)
        ensures
            r == (match result {
                Err(exit) => Some(exit),
                Ok(()) => None,
            }),
    {
        match result {
            Ok(()) => None,
            Err(exit) => Some(exit),
        }
    }

    /// Whether the status ends the transaction.
    pub fn is_exit(&self) -> (r: bool)
        ensures
            r == self.spec_is_exit(),
    {
        match self {
            ExitStatus::StepLimitReached => false,
            _ => true,
        }
    }

    /// Whether the pending actions are committed with this status.
    pub fn commits(&self) -> (r: bool)
        ensures
            r == self.spec_commits(),
    {
        match self {
            ExitStatus::Stop => true,
            ExitStatus::Return(_) => true,
            ExitStatus::SelfDestruct => true,
            _ => false,
        }
    }
}

} // verus!
