//! Fixed parameters of the cost model and of the account layout.

use vstd::prelude::*;

verus! {

/// What the operator deposits to the treasury for each invocation that ran
/// interpreter steps.
pub const PAYMENT_TO_TREASURE: u64 = 5000;

/// The fewest interpreter steps that one Continue is priced for.
pub const EVM_STEPS_MIN: u64 = 500;

/// Payload bytes carried by one holder write.
pub const HOLDER_MSG_SIZE: u64 = 950;

/// Number of hot storage slots embedded in a contract account.
pub const STORAGE_ENTIRIES_IN_CONTRACT_ACCOUNT: u32 = 64;

/// The most bytes by which the host lets one account grow in one invocation.
pub const MAX_PERMITTED_DATA_INCREASE: usize = 10240;

} // verus!
