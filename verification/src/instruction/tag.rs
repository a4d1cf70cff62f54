//! The instructions of the program, each selected by one tag byte.

use crate::error::Error;
use vstd::prelude::*;
use vstd::slice::slice_subrange;

verus! {

/// An instruction of the program.
#[derive(Clone, Copy, Debug, PartialEq, Eq, Structural)]
pub enum EvmInstruction {
    /// Executes a transaction in one invocation.
    CallFromRawEthereumTX,
    /// Reports a return; it does nothing when invoked.
    OnReturn,
    /// Reports an event; it does nothing when invoked.
    OnEvent,
    /// Deletes a holder or a finalized session.
    DeleteHolderOrStorageAccount,
    /// Writes a chunk of a transaction into a holder.
    WriteHolder,
    /// Begins the transaction that the instruction carries.
    PartialCallFromRawEthereumTx,
    /// Continues the transaction of a session.
    Continue,
    /// Cancels the transaction of a session.
    Cancel,
    /// Begins the transaction that a holder carries.
    ExecuteTrxFromAccountDataIterative,
    /// Deposits tokens into an account.
    Deposit,
    /// Creates an account.
    CreateAccount,
}

/// The instruction that a tag selects, if it selects one.
pub open spec fn instruction_of(tag: u8) -> Option<EvmInstruction> {
    if tag == 0x05 {
        Some(EvmInstruction::CallFromRawEthereumTX)
    } else if tag == 0x06 {
        Some(EvmInstruction::OnReturn)
    } else if tag == 0x07 {
        Some(EvmInstruction::OnEvent)
    } else if tag == 0x10 {
        Some(EvmInstruction::DeleteHolderOrStorageAccount)
    } else if tag == 0x12 {
        Some(EvmInstruction::WriteHolder)
    } else if tag == 0x13 {
        Some(EvmInstruction::PartialCallFromRawEthereumTx)
    } else if tag == 0x14 {
        Some(EvmInstruction::Continue)
    } else if tag == 0x15 {
        Some(EvmInstruction::Cancel)
    } else if tag == 0x16 {
        Some(EvmInstruction::ExecuteTrxFromAccountDataIterative)
    } else if tag == 0x19 {
        Some(EvmInstruction::Deposit)
    } else if tag == 0x28 {
        Some(EvmInstruction::CreateAccount)
    } else {
        None
    }
}

impl EvmInstruction {
    /// The tag that selects the instruction.
    pub open spec fn spec_tag(self) -> u8 {
        match self {
            EvmInstruction::CallFromRawEthereumTX => 0x05,
            EvmInstruction::OnReturn => 0x06,
            EvmInstruction::OnEvent => 0x07,
            EvmInstruction::DeleteHolderOrStorageAccount => 0x10,
            EvmInstruction::WriteHolder => 0x12,
            EvmInstruction::PartialCallFromRawEthereumTx => 0x13,
            EvmInstruction::Continue => 0x14,
            EvmInstruction::Cancel => 0x15,
            EvmInstruction::ExecuteTrxFromAccountDataIterative => 0x16,
            EvmInstruction::Deposit => 0x19,
            EvmInstruction::CreateAccount => 0x28,
        }
    }

    /// The instruction that a tag selects.
    pub fn parse(tag: u8) -> (r: Result<EvmInstruction, Error>)
        ensures
            r is Ok <==> instruction_of(tag) is Some,
            r is Ok ==> Some(r.unwrap()) == instruction_of(tag),
            r is Err ==> r.unwrap_err() == Error::InvalidInstruction,
    {
        if tag == 0x05 {
            Ok(EvmInstruction::CallFromRawEthereumTX)
        } else if tag == 0x06 {
            Ok(EvmInstruction::OnReturn)
        } else if tag == 0x07 {
            Ok(EvmInstruction::OnEvent)
        } else if tag == 0x10 {
            Ok(EvmInstruction::DeleteHolderOrStorageAccount)
        } else if tag == 0x12 {
            Ok(EvmInstruction::WriteHolder)
        } else if tag == 0x13 {
            Ok(EvmInstruction::PartialCallFromRawEthereumTx)
        } else if tag == 0x14 {
            Ok(EvmInstruction::Continue)
        } else if tag == 0x15 {
            Ok(EvmInstruction::Cancel)
        } else if tag == 0x16 {
            Ok(EvmInstruction::ExecuteTrxFromAccountDataIterative)
        } else if tag == 0x19 {
            Ok(EvmInstruction::Deposit)
        } else if tag == 0x28 {
            Ok(EvmInstruction::CreateAccount)
        } else {
            Err(Error::InvalidInstruction)
        }
    }

    /// The tag that selects the instruction.
    pub fn tag(self) -> (r: u8)
        ensures
            r == self.spec_tag(),
    {
        match self {
            EvmInstruction::CallFromRawEthereumTX => 0x05,
            EvmInstruction::OnReturn => 0x06,
            EvmInstruction::OnEvent => 0x07,
            EvmInstruction::DeleteHolderOrStorageAccount => 0x10,
            EvmInstruction::WriteHolder => 0x12,
            EvmInstruction::PartialCallFromRawEthereumTx => 0x13,
            EvmInstruction::Continue => 0x14,
            EvmInstruction::Cancel => 0x15,
            EvmInstruction::ExecuteTrxFromAccountDataIterative => 0x16,
            EvmInstruction::Deposit => 0x19,
            EvmInstruction::CreateAccount => 0x28,
        }
    }
}

/// Every instruction is selected by its own tag, and by no other.
pub proof fn lemma_tags_select(instruction: EvmInstruction, tag: u8)
    ensures
        instruction_of(instruction.spec_tag()) == Some(instruction),
        instruction_of(tag) == Some(instruction) ==> tag == instruction.spec_tag(),
{
}

/// Splits the data of an invocation into its instruction and what follows
/// the tag. Data without a tag, or with a tag that selects no instruction,
/// is rejected.
pub fn split_instruction(instruction_data: &[u8]) -> (r: Result<(EvmInstruction, &[u8]), Error>)
    ensures
        r is Ok <==> instruction_data@.len() > 0 && instruction_of(instruction_data@[0]) is Some,
        r is Ok ==> Some(r.unwrap().0) == instruction_of(instruction_data@[0]),
        r is Ok ==> r.unwrap().1@ == instruction_data@.subrange(
            1,
            instruction_data@.len() as int,
        ),
        r is Err ==> r.unwrap_err() == Error::InvalidInstruction,
{
    if instruction_data.len() == 0 {
        return Err(Error::InvalidInstruction);
    }
    match EvmInstruction::parse(instruction_data[0]) {
        Ok(instruction) => Ok(
            (instruction, slice_subrange(instruction_data, 1, instruction_data.len())),
        ),
        Err(e) => Err(e),
    }
}

} // verus!
