//! How the submitter of many transactions reads their statuses and decides
//! what to do next.

use vstd::prelude::*;

verus! {

/// How often the pending transactions are signed anew before the submitter
/// gives up.
pub const SEND_RETRIES: u32 = 5;

/// How far the cluster has taken a transaction.
#[derive(Clone, Copy, Debug, PartialEq, Eq, Structural)]
pub enum ConfirmationStatus {
    /// A node has processed it.
    Processed,
    /// The cluster has voted on it.
    Confirmed,
    /// The cluster has finalized it.
    Finalized,
}

/// What the cluster reports of one signature.
#[derive(Clone, Copy, Debug, PartialEq, Eq, Structural)]
pub struct SignatureStatus {
    /// How far the transaction was taken, where the cluster says so.
    pub confirmation_status: Option<ConfirmationStatus>,
    /// The number of confirmations, or nothing for a finalized transaction.
    pub confirmations: Option<usize>,
}

/// What the submitter does after a round of polling.
#[derive(Clone, Copy, Debug, PartialEq, Eq, Structural)]
pub enum NextStep {
    /// Nothing is pending: the submission succeeded.
    Done,
    /// Send the pending transactions again and poll again.
    Resend,
    /// The signatures have expired: sign the pending transactions anew and
    /// start over, with this many retries left.
    Resign { retries_left: u32 },
    /// The signatures have expired and no retry is left.
    Fail,
}

/// Whether a reported transaction has left the pending set: it was taken
/// further than processed, or, where the cluster names no stage, it is
/// finalized or has more than one confirmation.
pub open spec fn spec_is_settled(status: SignatureStatus) -> bool {
    match status.confirmation_status {
        Some(stage) => stage != ConfirmationStatus::Processed,
        None => match status.confirmations {
            Some(count) => count > 1,
            None => true,
        },
    }
}

/// What follows a round of polling that left `pending` transactions at slot
/// `slot`.
pub open spec fn spec_next_step(pending: usize, slot: u64, last_valid_slot: u64, send_retries: u32) -> NextStep {
    if pending == 0 {
        NextStep::Done
    } else if slot <= last_valid_slot {
        NextStep::Resend
    } else if send_retries == 0 {
        NextStep::Fail
    } else {
        NextStep::Resign { retries_left: (send_retries - 1) as u32 }
    }
}

/// Whether a reported transaction has left the pending set.
pub fn is_settled(status: &SignatureStatus) -> (r: bool)
    ensures
        r == spec_is_settled(*status),
{
    match status.confirmation_status {
        Some(stage) => stage != ConfirmationStatus::Processed,
        None => match status.confirmations {
            Some(count) => count > 1,
            None => true,
        },
    }
}

/// Decides what follows a round of polling.
pub fn next_step(pending: usize, slot: u64, last_valid_slot: u64, send_retries: u32) -> (r: NextStep)
    ensures
        r == spec_next_step(pending, slot, last_valid_slot, send_retries),
{
    if pending == 0 {
        NextStep::Done
    } else if slot <= last_valid_slot {
        NextStep::Resend
    } else if send_retries == 0 {
        NextStep::Fail
    } else {
        NextStep::Resign { retries_left: send_retries - 1 }
    }
}

} // verus!
