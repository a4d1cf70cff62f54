//! The durable record of one transaction's execution across invocations.
//!
//! Packed, a session is a version tag, a status byte, the transaction's
//! signature, the caller's address, the three gas fields and the steps taken
//! in little endian, and the interpreter's snapshot as it was handed in.

use crate::buffer::{append_bytes, read_array};
use crate::error::Error;
use crate::rent::Rent;
use crate::types::Address;
use crate::u256::{lemma_le_bytes_round_trip, U256};
use vstd::bytes::{
    lemma_auto_spec_u64_to_from_le_bytes, spec_u64_from_le_bytes, spec_u64_to_le_bytes,
    u64_from_le_bytes, u64_to_le_bytes,
};
use vstd::prelude::*;
use vstd::slice::slice_subrange;

verus! {

/// The version tag of a packed session.
pub const SESSION_VERSION: u8 = 1;

/// The bytes of a packed session before the snapshot.
pub const SESSION_HEADER_SIZE: usize = 191;

/// Where a session stands.
#[derive(Clone, Copy, Debug, PartialEq, Eq, Structural)]
pub enum Status {
    /// No transaction was begun.
    Empty,
    /// A transaction was begun and has not ended.
    Active,
    /// The transaction ended, by exit or by cancel.
    Finalized,
}

/// One logical transaction's record.
#[derive(Clone, Debug)]
pub struct Session {
    /// Where the session stands.
    pub status: Status,
    /// The signature of the transaction that the session runs or ran.
    pub signature: [u8; 65],
    /// The address that signed it.
    pub caller: Address,
    /// The most gas that the transaction may be charged in total.
    pub gas_limit: U256,
    /// What the caller pays per unit of gas.
    pub gas_price: U256,
    /// The gas charged and paid by the invocations so far.
    pub gas_used: U256,
    /// The interpreter steps that the invocations so far have taken.
    pub steps_executed: u64,
    /// The suspended interpreter, as the interpreter packed it.
    pub snapshot: Vec<u8>,
}

/// The byte that stands for a status.
pub open spec fn status_byte(status: Status) -> u8 {
    match status {
        Status::Empty => 0,
        Status::Active => 1,
        Status::Finalized => 2,
    }
}

/// The status that a byte stands for, if it stands for one.
pub open spec fn status_of(byte: u8) -> Option<Status> {
    if byte == 0 {
        Some(Status::Empty)
    } else if byte == 1 {
        Some(Status::Active)
    } else if byte == 2 {
        Some(Status::Finalized)
    } else {
        None
    }
}

/// Whether the record was never written: every byte is zero.
pub open spec fn untouched(data: Seq<u8>) -> bool {
    forall|i: int| 0 <= i < data.len() ==> data[i] == 0
}

/// Whether the bytes unpack to a session.
pub open spec fn well_packed(data: Seq<u8>) -> bool {
    &&& data.len() >= SESSION_HEADER_SIZE
    &&& data[0] == SESSION_VERSION
    &&& status_of(data[1]) is Some
}

impl Session {
    /// The session as bytes.
    pub open spec fn spec_pack(&self) -> Seq<u8> {
        seq![SESSION_VERSION, status_byte(self.status)] + self.signature@ + self.caller@
            + self.gas_limit.spec_to_le_bytes() + self.gas_price.spec_to_le_bytes()
            + self.gas_used.spec_to_le_bytes() + spec_u64_to_le_bytes(self.steps_executed)
            + self.snapshot@
    }

    /// Whether the session holds what the bytes hold, field by field.
    pub open spec fn holds(&self, data: Seq<u8>) -> bool {
        &&& Some(self.status) == status_of(data[1])
        &&& self.signature@ == data.subrange(2, 67)
        &&& self.caller@ == data.subrange(67, 87)
        &&& self.gas_limit == U256::spec_from_le_bytes(data.subrange(87, 119))
        &&& self.gas_price == U256::spec_from_le_bytes(data.subrange(119, 151))
        &&& self.gas_used == U256::spec_from_le_bytes(data.subrange(151, 183))
        &&& self.steps_executed == spec_u64_from_le_bytes(data.subrange(183, 191))
        &&& self.snapshot@ == data.subrange(191, data.len() as int)
    }

    /// Whether both sessions are for the same transaction with the same
    /// terms: only status, gas used and snapshot may differ.
    pub open spec fn same_transaction(&self, other: &Session) -> bool {
        &&& self.signature == other.signature
        &&& self.caller == other.caller
        &&& self.gas_limit == other.gas_limit
        &&& self.gas_price == other.gas_price
    }

    /// Whether nothing was begun on the session: it is Empty, and every byte
    /// and number of it is zero.
    pub open spec fn is_new(&self) -> bool {
        &&& self.status == Status::Empty
        &&& self.signature@ == Seq::new(65, |i: int| 0u8)
        &&& self.caller@ == Seq::new(20, |i: int| 0u8)
        &&& self.gas_limit@ == 0
        &&& self.gas_price@ == 0
        &&& self.gas_used@ == 0
        &&& self.steps_executed == 0
        &&& self.snapshot@.len() == 0
    }

    /// A session on which nothing was begun.
    pub fn new() -> (r: Session)
        ensures
            r.is_new(),
    {
        let signature: [u8; 65] = [0u8; 65];
        let caller: [u8; 20] = [0u8; 20];
        proof {
            assert(signature@ =~= Seq::new(65, |i: int| 0u8));
            assert(caller@ =~= Seq::new(20, |i: int| 0u8));
        }
        Session {
            status: Status::Empty,
            signature,
            caller: Address::from_bytes(caller),
            gas_limit: U256::zero(),
            gas_price: U256::zero(),
            gas_used: U256::zero(),
            steps_executed: 0,
            snapshot: Vec::new(),
        }
    }

    /// Reads the session of a record: a record that was never written, all
    /// zero bytes, holds the session on which nothing was begun; any other is
    /// unpacked.
    pub fn load(data: &[u8]) -> (r: Result<Session, Error>)
        ensures
            untouched(data@) ==> r is Ok && r.unwrap().is_new(),
            !untouched(data@) ==> (r is Ok <==> well_packed(data@)),
            !untouched(data@) && r is Ok ==> r.unwrap().holds(data@),
            r is Err ==> r.unwrap_err() == (if data@.len() < SESSION_HEADER_SIZE {
                Error::InvalidLength
            } else if data@[0] != SESSION_VERSION {
                Error::InvalidTag
            } else {
                Error::InvalidStatus
            }),
    {
        let mut i: usize = 0;
        while i < data.len()
            invariant
                i <= data@.len(),
                forall|j: int| 0 <= j < i ==> data@[j] == 0,
            decreases data@.len() - i,
        {
            if data[i] != 0 {
                return Session::unpack(data);
            }
            i += 1;
        }
        Ok(Session::new())
    }

    /// Packs the session for durable storage.
    pub fn pack(&self) -> (r: Vec<u8>)
        ensures
            r@ == self.spec_pack(),
    {
        let mut out: Vec<u8> = Vec::new();
        out.push(SESSION_VERSION);
        out.push(
            match self.status {
                Status::Empty => 0,
                Status::Active => 1,
                Status::Finalized => 2,
            },
        );
        append_bytes(&mut out, self.signature.as_slice());
        append_bytes(&mut out, self.caller.bytes.as_slice());
        let gas_limit = self.gas_limit.to_le_bytes();
        append_bytes(&mut out, gas_limit.as_slice());
        let gas_price = self.gas_price.to_le_bytes();
        append_bytes(&mut out, gas_price.as_slice());
        let gas_used = self.gas_used.to_le_bytes();
        append_bytes(&mut out, gas_used.as_slice());
        let steps = u64_to_le_bytes(self.steps_executed);
        append_bytes(&mut out, steps.as_slice());
        append_bytes(&mut out, self.snapshot.as_slice());
        proof {
            assert(out@ =~= self.spec_pack());
        }
        out
    }

    /// Unpacks a session. The bytes must hold the header, start with the
    /// version tag and name a status.
    pub fn unpack(data: &[u8]) -> (r: Result<Session, Error>)
        ensures
            r is Ok <==> well_packed(data@),
            r is Ok ==> r.unwrap().holds(data@),
            r is Ok ==> r.unwrap().spec_pack() == data@,
            r is Err ==> r.unwrap_err() == (if data@.len() < SESSION_HEADER_SIZE {
                Error::InvalidLength
            } else if data@[0] != SESSION_VERSION {
                Error::InvalidTag
            } else {
                Error::InvalidStatus
            }),
    {
        if data.len() < SESSION_HEADER_SIZE {
            return Err(Error::InvalidLength);
        }
        if data[0] != SESSION_VERSION {
            return Err(Error::InvalidTag);
        }
        let status = if data[1] == 0 {
            Status::Empty
        } else if data[1] == 1 {
            Status::Active
        } else if data[1] == 2 {
            Status::Finalized
        } else {
            return Err(Error::InvalidStatus);
        };
        let signature: [u8; 65] = read_array::<65>(data, 2);
        let caller = Address::from_bytes(read_array::<20>(data, 67));
        let gas_limit = U256::from_le_bytes(slice_subrange(data, 87, 119));
        let gas_price = U256::from_le_bytes(slice_subrange(data, 119, 151));
        let gas_used = U256::from_le_bytes(slice_subrange(data, 151, 183));
        let steps_executed = u64_from_le_bytes(slice_subrange(data, 183, 191));
        let mut snapshot: Vec<u8> = Vec::new();
        append_bytes(&mut snapshot, slice_subrange(data, 191, data.len()));
        let session = Session {
            status,
            signature,
            caller,
            gas_limit,
            gas_price,
            gas_used,
            steps_executed,
            snapshot,
        };
        proof {
            assert(snapshot@ =~= data@.subrange(191, data@.len() as int));
            lemma_holds_packs(session, data@);
        }
        Ok(session)
    }
}

/// What the record of a session that ended gives back to the operator: the
/// lamports that it holds above the rent for its `data_len` bytes.
pub fn deposit_to_return(rent: &Rent, data_len: usize, lamports: u64) -> (r: u64)
    ensures
        r == (if lamports >= rent.spec_minimum_balance(data_len) {
            lamports - rent.spec_minimum_balance(data_len)
        } else {
            0
        }),
{
    lamports.saturating_sub(rent.minimum_balance(data_len))
}

/// A session that holds what well-packed bytes hold packs to those bytes.
pub proof fn lemma_holds_packs(session: Session, data: Seq<u8>)
    requires
        well_packed(data),
        session.holds(data),
    ensures
        session.spec_pack() == data,
{
    lemma_le_bytes_round_trip(session.gas_limit, data.subrange(87, 119));
    lemma_le_bytes_round_trip(session.gas_price, data.subrange(119, 151));
    lemma_le_bytes_round_trip(session.gas_used, data.subrange(151, 183));
    lemma_auto_spec_u64_to_from_le_bytes();
    assert(session.spec_pack() =~= data);
}

/// A packed session is well packed and holds the session: unpacking it gives
/// every field back, the snapshot byte for byte.
pub proof fn lemma_pack_unpack(session: Session)
    ensures
        well_packed(session.spec_pack()),
        session.holds(session.spec_pack()),
{
    let data = session.spec_pack();
    lemma_le_bytes_round_trip(session.gas_limit, Seq::empty());
    lemma_le_bytes_round_trip(session.gas_price, Seq::empty());
    lemma_le_bytes_round_trip(session.gas_used, Seq::empty());
    lemma_auto_spec_u64_to_from_le_bytes();
    assert(data.subrange(2, 67) =~= session.signature@);
    assert(data.subrange(67, 87) =~= session.caller@);
    assert(data.subrange(87, 119) =~= session.gas_limit.spec_to_le_bytes());
    assert(data.subrange(119, 151) =~= session.gas_price.spec_to_le_bytes());
    assert(data.subrange(151, 183) =~= session.gas_used.spec_to_le_bytes());
    assert(data.subrange(183, 191) =~= spec_u64_to_le_bytes(session.steps_executed));
    assert(data.subrange(191, data.len() as int) =~= session.snapshot@);
}

} // verus!
