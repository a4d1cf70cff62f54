//! Why an invocation is rejected.

use vstd::prelude::*;

verus! {

/// A rejection. The invocation that meets one leaves every record as it found
/// it.
#[derive(Clone, Copy, Debug, PartialEq, Eq, Structural)]
pub enum Error {
    /// Begin on a session that is Active.
    SessionActive,
    /// Continue or Cancel on a session that is not Active.
    SessionNotActive,
    /// Begin on a Finalized session with the signature and caller that
    /// finalized it.
    AlreadyFinalized,
    /// The transaction's signature is not the caller's.
    InvalidSignature,
    /// The transaction's nonce is not the caller's.
    InvalidNonce,
    /// The transaction names another chain.
    InvalidChainId,
    /// A Continue budget below the minimum on a transaction that pays fees.
    StepLimitBelowMinimum,
    /// An execution in one invocation did not end within its steps.
    TooManySteps,
    /// An account that the transaction touches is locked.
    AccountBlocked,
    /// The payer's balance does not cover the amount.
    InsufficientFunds,
    /// The data of an invocation selects no instruction.
    InvalidInstruction,
    /// A record does not start with the tag of its kind.
    InvalidTag,
    /// A record is shorter than its layout.
    InvalidLength,
    /// A session record holds an unknown status byte.
    InvalidStatus,
}

} // verus!
