//! Reading the value that a transaction returned out of its receipt.

use crate::base58::{base58_decoded, bs58_decode};
use vstd::prelude::*;

verus! {

/// The index of the instruction whose inner instructions carry the return.
pub const RETURN_INSTRUCTION_INDEX: u8 = 2;

/// The tag of the instruction by which the program reports a return.
pub const ON_RETURN_TAG: u8 = 6;

/// An instruction as the receipt lists it: the program by its place among the
/// account keys, and the data as Base58 text.
#[derive(Debug)]
pub struct CompiledInstruction {
    pub program_id_index: u8,
    pub data: String,
}

/// An inner instruction of a receipt.
#[derive(Debug)]
pub enum UiInstruction {
    /// Listed with its data.
    Compiled(CompiledInstruction),
    /// Listed in a parsed form, which carries no return.
    Parsed,
}

/// The inner instructions of one instruction of the transaction.
#[derive(Debug)]
pub struct InnerInstructions {
    /// The index of the instruction in the transaction.
    pub index: u8,
    /// What that instruction invoked, in order.
    pub instructions: Vec<UiInstruction>,
}

/// What is read of a receipt.
#[derive(Debug)]
pub struct Receipt {
    /// The account keys, where the transaction is listed with a raw message.
    pub account_keys: Option<Vec<String>>,
    /// The inner instructions, where the receipt has them.
    pub inner_instructions: Option<Vec<InnerInstructions>>,
}

/// The place of the first key at or after `from` that is `key`, if there is
/// one.
pub open spec fn key_position(keys: Seq<String>, key: Seq<char>, from: int) -> Option<int>
    decreases keys.len() - from,
{
    if from >= keys.len() {
        None
    } else if keys[from]@ == key {
        Some(from)
    } else {
        key_position(keys, key, from + 1)
    }
}

/// The value in the data of an instruction that reports a return: what
/// follows the return tag.
pub open spec fn spec_return_payload(decoded: Seq<u8>) -> Option<Seq<u8>> {
    if decoded.len() > 0 && decoded[0] == ON_RETURN_TAG {
        Some(decoded.subrange(1, decoded.len() as int))
    } else {
        None
    }
}

/// The return that the inner instructions of one instruction carry: they
/// belong to the instruction with the return index, their last one is listed
/// with data and invokes the program, and its data decodes to the return tag
/// followed by the value.
pub open spec fn return_of(program: Option<int>, inner: InnerInstructions) -> Option<Seq<u8>> {
    if inner.index != RETURN_INSTRUCTION_INDEX || inner.instructions@.len() == 0 {
        None
    } else {
        match inner.instructions@.last() {
            UiInstruction::Compiled(instruction) => {
                if program != Some(instruction.program_id_index as int) {
                    None
                } else {
                    match base58_decoded(instruction.data@) {
                        Some(decoded) => spec_return_payload(decoded),
                        None => None,
                    }
                }
            },
            UiInstruction::Parsed => None,
        }
    }
}

/// The first return that the inner instructions at or after `from` carry.
pub open spec fn first_return(program: Option<int>, all: Seq<InnerInstructions>, from: int) -> Option<
    Seq<u8>,
>
    decreases all.len() - from,
{
    if from >= all.len() {
        None
    } else if return_of(program, all[from]) is Some {
        return_of(program, all[from])
    } else {
        first_return(program, all, from + 1)
    }
}

/// The value that the receipt reports as returned by `evm_loader`.
pub open spec fn spec_return_value(evm_loader: Seq<char>, receipt: Receipt) -> Option<Seq<u8>> {
    match (receipt.account_keys, receipt.inner_instructions) {
        (Some(keys), Some(inner)) => first_return(key_position(keys@, evm_loader, 0), inner@, 0),
        _ => None,
    }
}

/// The place of `key` among the keys.
fn position(keys: &Vec<String>, key: &String) -> (r: Option<usize>)
    ensures
        r is Some <==> key_position(keys@, key@, 0) is Some,
        r is Some ==> r.unwrap() == key_position(keys@, key@, 0).unwrap(),
{
    let mut i: usize = 0;
    while i < keys.len()
        invariant
            i <= keys@.len(),
            key_position(keys@, key@, 0) == key_position(keys@, key@, i as int),
        decreases keys@.len() - i,
    {
        if keys[i] == *key {
            return Some(i);
        }
        i += 1;
    }
    None
}

/// Reads the value out of the decoded data of an instruction: what follows
/// the return tag, if the data starts with it.
pub fn return_payload(decoded: &[u8]) -> (r: Option<Vec<u8>>)
    ensures
        r is Some <==> spec_return_payload(decoded@) is Some,
        r is Some ==> r.unwrap()@ == spec_return_payload(decoded@).unwrap(),
{
    if decoded.len() == 0 || decoded[0] != ON_RETURN_TAG {
        return None;
    }
    let mut value: Vec<u8> = Vec::new();
    let mut k: usize = 1;
    while k < decoded.len()
        invariant
            1 <= k <= decoded@.len(),
            value@ == decoded@.subrange(1, k as int),
        decreases decoded@.len() - k,
    {
        value.push(decoded[k]);
        proof {
            assert(decoded@.subrange(1, k + 1) =~= decoded@.subrange(1, k as int).push(
                decoded@[k as int],
            ));
        }
        k += 1;
    }
    Some(value)
}

/// The return that the inner instructions of one instruction carry.
fn instruction_return(program: Option<usize>, inner: &InnerInstructions) -> (r: Option<Vec<u8>>)
    ensures
        r is Some <==> return_of(
            match program {
                Some(at) => Some(at as int),
                None => None,
            },
            *inner,
        ) is Some,
        r is Some ==> r.unwrap()@ == return_of(
            match program {
                Some(at) => Some(at as int),
                None => None,
            },
            *inner,
        ).unwrap(),
{
    if inner.index != RETURN_INSTRUCTION_INDEX || inner.instructions.len() == 0 {
        return None;
    }
    let last = &inner.instructions[inner.instructions.len() - 1];
    match last {
        UiInstruction::Compiled(instruction) => {
            match program {
                Some(at) => {
                    if instruction.program_id_index as usize != at {
                        return None;
                    }
                },
                None => {
                    return None;
                },
            }
            match bs58_decode(instruction.data.as_str()) {
                Some(decoded) => return_payload(decoded.as_slice()),
                None => None,
            }
        },
        UiInstruction::Parsed => None,
    }
}

/// Reads the value that a transaction returned out of its receipt: that of
/// the first inner instructions that carry a return of `evm_loader`. A
/// receipt without account keys or without inner instructions carries none.
pub fn parse_transaction_reciept(evm_loader: &String, receipt: &Receipt) -> (r: Option<Vec<u8>>)
    ensures
        r is Some <==> spec_return_value(evm_loader@, *receipt) is Some,
        r is Some ==> r.unwrap()@ == spec_return_value(evm_loader@, *receipt).unwrap(),
{
    let keys = match &receipt.account_keys {
        Some(keys) => keys,
        None => {
            return None;
        },
    };
    let all = match &receipt.inner_instructions {
        Some(all) => all,
        None => {
            return None;
        },
    };
    let evm_loader_index = position(keys, evm_loader);
    let ghost program = key_position(keys@, evm_loader@, 0);
    let mut i: usize = 0;
    while i < all.len()
        invariant
            i <= all@.len(),
            receipt.account_keys == Some(*keys),
            receipt.inner_instructions == Some(*all),
            program == key_position(keys@, evm_loader@, 0),
            program == (match evm_loader_index {
                Some(at) => Some(at as int),
                None => None,
            }),
            first_return(program, all@, 0) == first_return(program, all@, i as int),
        decreases all@.len() - i,
    {
        match instruction_return(evm_loader_index, &all[i]) {
            Some(value) => {
                return Some(value);
            },
            None => {},
        }
        i += 1;
    }
    None
}

} // verus!
