//! What the host's system program is asked to do for an account of this
//! program.

use crate::rent::Rent;
use vstd::prelude::*;

verus! {

/// One request to the system program.
#[derive(Clone, Copy, Debug, PartialEq, Eq, Structural)]
pub enum SystemInstruction {
    /// Move lamports from the payer to the account.
    Transfer { lamports: u64 },
    /// Give the account `space` bytes of data.
    Allocate { space: u64 },
    /// Hand the account to this program.
    Assign,
    /// Make the account anew, with its balance, its data and its owner.
    CreateAccount { lamports: u64, space: u64 },
}

/// The balance that an account of `space` bytes must hold: its rent, and at
/// least one lamport.
pub open spec fn spec_required_balance(rent: Rent, space: usize) -> u64 {
    if rent.spec_minimum_balance(space) >= 1 {
        rent.spec_minimum_balance(space)
    } else {
        1
    }
}

/// The requests that make an account of `space` bytes out of an address that
/// holds `lamports`. An address without lamports is created in one request.
/// An address that already holds lamports cannot be created: it is topped up
/// to the required balance where it lacks some, then allocated and assigned.
pub open spec fn spec_create_pda_account(rent: Rent, lamports: u64, space: usize) -> Seq<
    SystemInstruction,
> {
    let minimum_balance = spec_required_balance(rent, space);
    if lamports > 0 {
        let tail = seq![
            SystemInstruction::Allocate { space: space as u64 },
            SystemInstruction::Assign,
        ];
        if minimum_balance > lamports {
            seq![SystemInstruction::Transfer { lamports: (minimum_balance - lamports) as u64 }]
                + tail
        } else {
            tail
        }
    } else {
        seq![SystemInstruction::CreateAccount { lamports: minimum_balance, space: space as u64 }]
    }
}

/// Plans the creation of an account of `space` bytes at an address that
/// holds `lamports`.
pub fn create_pda_account(rent: &Rent, lamports: u64, space: usize) -> (r: Vec<SystemInstruction>)
    ensures
        r@ == spec_create_pda_account(*rent, lamports, space),
{
    let rent_balance: u64 = rent.minimum_balance(space);
    let minimum_balance: u64 = if rent_balance >= 1 {
        rent_balance
    } else {
        1
    };
    let mut plan: Vec<SystemInstruction> = Vec::new();
    if lamports > 0 {
        let required_lamports: u64 = minimum_balance.saturating_sub(lamports);
        if required_lamports > 0 {
            plan.push(SystemInstruction::Transfer { lamports: required_lamports });
        }
        plan.push(SystemInstruction::Allocate { space: space as u64 });
        plan.push(SystemInstruction::Assign);
    } else {
        plan.push(SystemInstruction::CreateAccount { lamports: minimum_balance, space: space as u64 });
    }
    proof {
        assert(plan@ =~= spec_create_pda_account(*rent, lamports, space));
    }
    plan
}

} // verus!
