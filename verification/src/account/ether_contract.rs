//! Contract accounts: a header, then code, jump table and hot storage in one
//! buffer.

use crate::config::STORAGE_ENTIRIES_IN_CONTRACT_ACCOUNT;
use crate::buffer::{copy_range, read_array, write_bytes};
use crate::error::Error;
use vstd::bytes::{spec_u32_from_le_bytes, spec_u32_to_le_bytes, u32_from_le_bytes, u32_to_le_bytes};
use vstd::prelude::*;
use vstd::slice::slice_subrange;

verus! {

/// The tag of a version 1 contract header.
pub const TAG_CONTRACT_V1: u8 = 2;

/// The tag of a version 2 contract header.
pub const TAG_CONTRACT_V2: u8 = 20;

/// The packed size of a version 1 header.
pub const DATA_V1_SIZE: usize = 36;

/// The packed size of a version 2 header.
pub const DATA_V2_SIZE: usize = 40;

/// The bytes of the hot storage region: one 32-byte value for each hot slot.
pub const INTERNAL_STORAGE_SIZE: usize = 2048;

/// The header of a version 1 contract account.
#[derive(Clone, Copy, Debug)]
pub struct DataV1 {
    /// The host account that holds the Ethereum account of this code.
    pub owner: [u8; 32],
    /// The length of the contract code.
    pub code_size: u32,
}

/// The header of a version 2 contract account.
#[derive(Clone, Copy, Debug)]
pub struct DataV2 {
    /// The host account that holds the Ethereum account of this code.
    pub owner: [u8; 32],
    /// The length of the contract code.
    pub code_size: u32,
    /// How often the contract was destroyed and made anew.
    pub generation: u32,
}

/// The regions of a version 1 contract account.
#[derive(Debug)]
pub struct ExtensionV1 {
    /// The contract code.
    pub code: Vec<u8>,
    /// The jump table: one bit for each byte of code.
    pub valids: Vec<u8>,
    /// The rest of the buffer, which holds the storage.
    pub storage: Vec<u8>,
}

/// The regions of a contract account.
#[derive(Debug)]
pub struct Extension {
    /// The contract code.
    pub code: Vec<u8>,
    /// The jump table: one bit for each byte of code.
    pub valids: Vec<u8>,
    /// The rest of the buffer, which starts with the hot storage slots.
    pub storage: Vec<u8>,
}

/// The bytes of the jump table for code of `code_size` bytes.
pub open spec fn spec_valids_size(code_size: int) -> int {
    code_size / 8 + 1
}

/// The bytes of the jump table for code of `code_size` bytes: one bit for
/// each byte of code, and never none.
pub fn valids_size_needed(code_size: usize) -> (r: usize)
    ensures
        r == spec_valids_size(code_size as int),
{
    code_size / 8 + 1
}

impl DataV1 {
    /// The packed header: the owner, then the code size in little endian.
    pub open spec fn spec_pack(&self) -> Seq<u8> {
        self.owner@ + spec_u32_to_le_bytes(self.code_size)
    }

    /// Reads a header from the first 36 bytes of `input`.
    pub fn unpack(input: &[u8]) -> (r: DataV1)
        requires
            input@.len() >= DATA_V1_SIZE,
        ensures
            r.owner@ == input@.subrange(0, 32),
            r.code_size == spec_u32_from_le_bytes(input@.subrange(32, 36)),
    {
        let owner: [u8; 32] = read_array::<32>(input, 0);
        let code_size: u32 = u32_from_le_bytes(slice_subrange(input, 32, 36));
        DataV1 { owner, code_size }
    }

    /// Writes the header over the first 36 bytes of `dst`.
    pub fn pack(&self, dst: &mut Vec<u8>)
        requires
            old(dst)@.len() >= DATA_V1_SIZE,
        ensures
            final(dst)@ == self.spec_pack() + old(dst)@.subrange(36, old(dst)@.len() as int),
    {
        proof {
            vstd::bytes::lemma_auto_spec_u32_to_from_le_bytes();
        }
        write_bytes(dst, 0, self.owner.as_slice());
        let size = u32_to_le_bytes(self.code_size);
        write_bytes(dst, 32, size.as_slice());
        proof {
            assert(dst@ =~= self.spec_pack() + old(dst)@.subrange(36, old(dst)@.len() as int));
        }
    }
}

impl DataV2 {
    /// The packed header: the owner, then the code size and the generation in
    /// little endian.
    pub open spec fn spec_pack(&self) -> Seq<u8> {
        self.owner@ + spec_u32_to_le_bytes(self.code_size) + spec_u32_to_le_bytes(self.generation)
    }

    /// Reads a header from the first 40 bytes of `input`.
    pub fn unpack(input: &[u8]) -> (r: DataV2)
        requires
            input@.len() >= DATA_V2_SIZE,
        ensures
            r.owner@ == input@.subrange(0, 32),
            r.code_size == spec_u32_from_le_bytes(input@.subrange(32, 36)),
            r.generation == spec_u32_from_le_bytes(input@.subrange(36, 40)),
    {
        let owner: [u8; 32] = read_array::<32>(input, 0);
        let code_size: u32 = u32_from_le_bytes(slice_subrange(input, 32, 36));
        let generation: u32 = u32_from_le_bytes(slice_subrange(input, 36, 40));
        DataV2 { owner, code_size, generation }
    }

    /// Writes the header over the first 40 bytes of `dst`.
    pub fn pack(&self, dst: &mut Vec<u8>)
        requires
            old(dst)@.len() >= DATA_V2_SIZE,
        ensures
            final(dst)@ == self.spec_pack() + old(dst)@.subrange(40, old(dst)@.len() as int),
    {
        proof {
            vstd::bytes::lemma_auto_spec_u32_to_from_le_bytes();
        }
        write_bytes(dst, 0, self.owner.as_slice());
        let size = u32_to_le_bytes(self.code_size);
        write_bytes(dst, 32, size.as_slice());
        let generation = u32_to_le_bytes(self.generation);
        write_bytes(dst, 36, generation.as_slice());
        proof {
            assert(dst@ =~= self.spec_pack() + old(dst)@.subrange(40, old(dst)@.len() as int));
        }
    }
}

/// A packed version 1 header unpacks to the header that was packed.
pub proof fn lemma_data_v1_round_trip(data: DataV1, rest: Seq<u8>)
    ensures
        (data.spec_pack() + rest).len() >= DATA_V1_SIZE,
        (data.spec_pack() + rest).subrange(0, 32) == data.owner@,
        spec_u32_from_le_bytes((data.spec_pack() + rest).subrange(32, 36)) == data.code_size,
{
    vstd::bytes::lemma_auto_spec_u32_to_from_le_bytes();
    let packed = data.spec_pack() + rest;
    assert(packed.subrange(0, 32) =~= data.owner@);
    assert(packed.subrange(32, 36) =~= spec_u32_to_le_bytes(data.code_size));
}

/// A packed version 2 header unpacks to the header that was packed.
pub proof fn lemma_data_v2_round_trip(data: DataV2, rest: Seq<u8>)
    ensures
        (data.spec_pack() + rest).len() >= DATA_V2_SIZE,
        (data.spec_pack() + rest).subrange(0, 32) == data.owner@,
        spec_u32_from_le_bytes((data.spec_pack() + rest).subrange(32, 36)) == data.code_size,
        spec_u32_from_le_bytes((data.spec_pack() + rest).subrange(36, 40)) == data.generation,
{
    vstd::bytes::lemma_auto_spec_u32_to_from_le_bytes();
    let packed = data.spec_pack() + rest;
    assert(packed.subrange(0, 32) =~= data.owner@);
    assert(packed.subrange(32, 36) =~= spec_u32_to_le_bytes(data.code_size));
    assert(packed.subrange(36, 40) =~= spec_u32_to_le_bytes(data.generation));
}

/// Whether a buffer of `len` bytes holds code of `code_size` bytes and its
/// jump table.
pub open spec fn holds_code(code_size: int, len: int) -> bool {
    code_size + spec_valids_size(code_size) <= len
}

impl ExtensionV1 {
    /// Splits the bytes behind a version 1 header into code, jump table and
    /// storage. The buffer must hold the code and the jump table.
    pub fn unpack(data: &DataV1, remaining: &[u8]) -> (r: Result<ExtensionV1, Error>)
        ensures
            r is Ok <==> holds_code(data.code_size as int, remaining@.len() as int),
            r is Err ==> r.unwrap_err() == Error::InvalidLength,
            r is Ok ==> r.unwrap().code@ + r.unwrap().valids@ + r.unwrap().storage@
                == remaining@,
            r is Ok ==> r.unwrap().code@.len() == data.code_size,
            r is Ok ==> r.unwrap().valids@.len() == spec_valids_size(data.code_size as int),
    {
        let code_size: usize = data.code_size as usize;
        let valids_size: usize = valids_size_needed(code_size);
        if remaining.len() < code_size || remaining.len() - code_size < valids_size {
            return Err(Error::InvalidLength);
        }
        let code = copy_range(remaining, 0, code_size);
        let valids = copy_range(remaining, code_size, code_size + valids_size);
        let storage = copy_range(remaining, code_size + valids_size, remaining.len());
        proof {
            assert(code@ + valids@ + storage@ =~= remaining@);
        }
        Ok(ExtensionV1 { code, valids, storage })
    }
}

impl Extension {
    /// The bytes that a contract with code of `code_size` bytes takes behind
    /// its header: nothing without code, else the code, its jump table and
    /// the hot storage.
    pub open spec fn spec_size_needed(code_size: int) -> int {
        if code_size == 0 {
            0
        } else {
            code_size + spec_valids_size(code_size) + INTERNAL_STORAGE_SIZE
        }
    }

    /// The bytes of the three regions together.
    pub open spec fn spec_size(&self) -> nat {
        self.code@.len() + self.valids@.len() + self.storage@.len()
    }

    /// The bytes that a contract with code of `code_size` bytes takes behind
    /// its header.
    pub fn size_needed_v3(code_size: usize) -> (r: usize)
        requires
            Self::spec_size_needed(code_size as int) <= usize::MAX,
        ensures
            r == Self::spec_size_needed(code_size as int),
    {
        if code_size == 0 {
            return 0;
        }
        code_size + valids_size_needed(code_size) + INTERNAL_STORAGE_SIZE
    }

    /// The size of the account of a contract with code of `code_size` bytes
    /// behind a header of `header_size` bytes, where 32 bits hold it: the
    /// host takes the size of a new account in 32 bits.
    pub open spec fn spec_account_size(header_size: usize, code_size: usize) -> Option<u32> {
        if header_size + Self::spec_size_needed(code_size as int) <= u32::MAX {
            Some((header_size + Self::spec_size_needed(code_size as int)) as u32)
        } else {
            None
        }
    }

    /// The size of the account of a contract with code of `code_size` bytes
    /// behind a header of `header_size` bytes, where 32 bits hold it.
    pub fn account_size(header_size: usize, code_size: usize) -> (r: Option<u32>)
        ensures
            r == Self::spec_account_size(header_size, code_size),
    {
        if header_size > 0xffff_ffff || code_size > 0xffff_ffff {
            return None;
        }
        let code: u64 = code_size as u64;
        let needed: u64 = if code == 0 {
            0
        } else {
            code + (code / 8 + 1) + INTERNAL_STORAGE_SIZE as u64
        };
        let size: u64 = header_size as u64 + needed;
        if size > 0xffff_ffff {
            return None;
        }
        Some(size as u32)
    }

    /// The bytes of the three regions together.
    pub fn size(&self) -> (r: usize)
        requires
            self.spec_size() <= usize::MAX,
        ensures
            r == self.spec_size(),
    {
        self.code.len() + self.valids.len() + self.storage.len()
    }

    /// Splits the bytes behind a version 2 header into code, jump table and
    /// storage. The buffer must hold the code and the jump table.
    pub fn unpack(data: &DataV2, remaining: &[u8]) -> (r: Result<Extension, Error>)
        ensures
            r is Ok <==> holds_code(data.code_size as int, remaining@.len() as int),
            r is Err ==> r.unwrap_err() == Error::InvalidLength,
            r is Ok ==> r.unwrap().code@ + r.unwrap().valids@ + r.unwrap().storage@
                == remaining@,
            r is Ok ==> r.unwrap().code@.len() == data.code_size,
            r is Ok ==> r.unwrap().valids@.len() == spec_valids_size(data.code_size as int),
    {
        let code_size: usize = data.code_size as usize;
        let valids_size: usize = valids_size_needed(code_size);
        if remaining.len() < code_size || remaining.len() - code_size < valids_size {
            return Err(Error::InvalidLength);
        }
        let code = copy_range(remaining, 0, code_size);
        let valids = copy_range(remaining, code_size, code_size + valids_size);
        let storage = copy_range(remaining, code_size + valids_size, remaining.len());
        proof {
            assert(code@ + valids@ + storage@ =~= remaining@);
        }
        Ok(Extension { code, valids, storage })
    }

    /// Splits the bytes behind the header of an account whose code has
    /// `code_size` bytes. An account without code has no regions. With code,
    /// the buffer must hold the code, the jump table and the hot storage.
    pub fn unpack_v3(code_size: u32, remaining: &[u8]) -> (r: Result<Option<Extension>, Error>)
        ensures
            r is Ok <==> code_size == 0 || Self::spec_size_needed(code_size as int)
                <= remaining@.len(),
            r is Err ==> r.unwrap_err() == Error::InvalidLength,
            r is Ok ==> (r.unwrap() is None <==> code_size == 0),
            r is Ok && code_size != 0 ==> {
                let extension = r.unwrap().unwrap();
                &&& extension.code@ + extension.valids@ + extension.storage@ == remaining@
                &&& extension.code@.len() == code_size
                &&& extension.valids@.len() == spec_valids_size(code_size as int)
            },
    {
        if code_size == 0 {
            return Ok(None);
        }
        let code_size: usize = code_size as usize;
        let valids_size: usize = valids_size_needed(code_size);
        if remaining.len() < code_size || remaining.len() - code_size < valids_size
            || remaining.len() - code_size - valids_size < INTERNAL_STORAGE_SIZE {
            return Err(Error::InvalidLength);
        }
        let code = copy_range(remaining, 0, code_size);
        let valids = copy_range(remaining, code_size, code_size + valids_size);
        let storage = copy_range(remaining, code_size + valids_size, remaining.len());
        proof {
            assert(code@ + valids@ + storage@ =~= remaining@);
        }
        Ok(Some(Extension { code, valids, storage }))
    }

    /// Reads hot slot `index` from the storage region.
    pub fn hot_slot(&self, index: u32) -> (r: [u8; 32])
        requires
            index < STORAGE_ENTIRIES_IN_CONTRACT_ACCOUNT,
            self.storage@.len() >= INTERNAL_STORAGE_SIZE,
        ensures
            r@ == self.storage@.subrange(32 * index, 32 * index + 32),
    {
        read_array::<32>(self.storage.as_slice(), 32 * (index as usize))
    }
}

} // verus!
