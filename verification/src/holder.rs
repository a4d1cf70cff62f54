//! The holder: the account into which a transaction too large for one
//! invocation is uploaded chunk by chunk.

use vstd::bytes::{spec_u64_to_le_bytes, u64_to_le_bytes};
use vstd::prelude::*;

verus! {

/// The most payload bytes that one write to the holder carries.
pub const DATA_CHUNK_SIZE: usize = 229;

/// One write to the holder.
#[derive(Debug)]
pub struct HolderWrite {
    /// Where in the holder the bytes go.
    pub offset: u32,
    /// The bytes.
    pub bytes: Vec<u8>,
}

/// The message that executes a signed transaction from a holder: the
/// signature, the recovery id, the length of the payload in little endian,
/// and the payload.
pub open spec fn spec_frame(signature: Seq<u8>, recovery_id: u8, rlp_data: Seq<u8>) -> Seq<u8> {
    signature + seq![recovery_id] + spec_u64_to_le_bytes(rlp_data.len() as u64) + rlp_data
}

/// The number of writes that upload `len` bytes.
pub open spec fn write_count(len: int) -> int {
    if len % 229 == 0 {
        len / 229
    } else {
        len / 229 + 1
    }
}

/// The end of the `i`-th chunk of `len` bytes.
pub open spec fn chunk_end(len: int, i: int) -> int {
    if 229 * (i + 1) <= len {
        229 * (i + 1)
    } else {
        len
    }
}

/// Frames a signed transaction for the holder. The frame is 73 bytes longer
/// than the payload.
pub fn frame_transaction(signature: &[u8; 64], recovery_id: u8, rlp_data: &[u8]) -> (r: Vec<u8>)
    ensures
        r@ == spec_frame(signature@, recovery_id, rlp_data@),
        r@.len() == rlp_data@.len() + 73,
{
    let mut msg: Vec<u8> = Vec::new();
    let mut i: usize = 0;
    while i < 64
        invariant
            i <= 64,
            msg@ == signature@.subrange(0, i as int),
        decreases 64 - i,
    {
        msg.push(signature[i]);
        proof {
            assert(signature@.subrange(0, i + 1) =~= signature@.subrange(0, i as int).push(
                signature@[i as int],
            ));
        }
        i += 1;
    }
    proof {
        assert(signature@.subrange(0, 64) =~= signature@);
    }
    msg.push(recovery_id);
    let mut length = u64_to_le_bytes(rlp_data.len() as u64);
    msg.append(&mut length);
    let ghost header = msg@;
    let mut k: usize = 0;
    while k < rlp_data.len()
        invariant
            k <= rlp_data@.len(),
            msg@ == header + rlp_data@.subrange(0, k as int),
        decreases rlp_data@.len() - k,
    {
        msg.push(rlp_data[k]);
        proof {
            assert(rlp_data@.subrange(0, k + 1) =~= rlp_data@.subrange(0, k as int).push(
                rlp_data@[k as int],
            ));
        }
        k += 1;
    }
    proof {
        assert(rlp_data@.subrange(0, k as int) =~= rlp_data@);
        assert(msg@ =~= spec_frame(signature@, recovery_id, rlp_data@));
    }
    msg
}

/// Cuts a message into the writes that upload it: chunks of 229 bytes, the
/// last one shorter where the length asks for it, each at the offset of its
/// first byte. Offsets are 32 bits wide, so the message must end within them.
pub fn holder_writes(msg: &[u8]) -> (r: Vec<HolderWrite>)
    requires
        msg@.len() <= u32::MAX,
    ensures
        r@.len() == write_count(msg@.len() as int),
        forall|i: int|
            0 <= i < r@.len() ==> (#[trigger] r@[i]).offset == 229 * i && r@[i].bytes@
                == msg@.subrange(229 * i, chunk_end(msg@.len() as int, i)),
{
    let len: usize = msg.len();
    let mut writes: Vec<HolderWrite> = Vec::new();
    let mut start: usize = 0;
    while start < len
        invariant
            len == msg@.len(),
            len <= u32::MAX,
            start <= len,
            start == 229 * writes@.len() || start == len,
            start == len ==> writes@.len() == write_count(len as int),
            start < len ==> start == 229 * writes@.len(),
            forall|i: int|
                0 <= i < writes@.len() ==> (#[trigger] writes@[i]).offset == 229 * i
                    && writes@[i].bytes@ == msg@.subrange(229 * i, chunk_end(len as int, i)),
        decreases len - start,
    {
        let end: usize = if len - start >= DATA_CHUNK_SIZE {
            start + DATA_CHUNK_SIZE
        } else {
            len
        };
        let mut bytes: Vec<u8> = Vec::new();
        let mut k: usize = start;
        while k < end
            invariant
                start <= k <= end <= len,
                len == msg@.len(),
                bytes@ == msg@.subrange(start as int, k as int),
            decreases end - k,
        {
            bytes.push(msg[k]);
            proof {
                assert(msg@.subrange(start as int, k + 1) =~= msg@.subrange(
                    start as int,
                    k as int,
                ).push(msg@[k as int]));
            }
            k += 1;
        }
        let ghost index = writes@.len() as int;
        proof {
            assert(end == chunk_end(len as int, index));
        }
        writes.push(HolderWrite { offset: start as u32, bytes });
        start = end;
    }
    writes
}

} // verus!
