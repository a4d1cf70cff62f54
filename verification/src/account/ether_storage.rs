//! Overflow storage records: the slots that a contract account does not hold.
//!
//! A record is one tag byte followed by chunks of 33 bytes: the low byte of a
//! slot's key, then the slot's value. The first chunk with a given byte holds
//! the slot; a byte that no chunk holds reads as zero.

use crate::error::Error;
use crate::config::STORAGE_ENTIRIES_IN_CONTRACT_ACCOUNT;
use crate::rent::Rent;
use crate::u256::{word_base, U256};
use vstd::prelude::*;

verus! {

/// The tag of an overflow storage record.
pub const TAG_CONTRACT_STORAGE: u8 = 6;

/// The size of an overflow record that holds no slot yet: its tag.
pub const STORAGE_RECORD_SIZE: usize = 1;

/// The size of one chunk: a subindex and a value.
pub const STORAGE_CHUNK_SIZE: usize = 33;

/// The header of an overflow storage record. It has no fields.
#[derive(Clone, Copy, Debug, Default, PartialEq, Eq, Structural)]
pub struct Data {}

impl Data {
    /// Reads the header, which takes no bytes.
    pub fn unpack(_src: &[u8]) -> (r: Data)
        ensures
            r == (Data {  }),
    {
        Data {  }
    }

    /// Writes the header, which takes no bytes.
    pub fn pack(&self, dst: &mut Vec<u8>)
        ensures
            final(dst)@ == old(dst)@,
    {
    }
}

/// Where a storage slot is kept.
#[derive(Clone, Copy, Debug, PartialEq, Eq, Structural)]
pub enum StorageLocation {
    /// In the contract account, as hot slot number `slot`.
    Hot { slot: u32 },
    /// In the overflow record of `index`, under `subindex`.
    Overflow { index: U256, subindex: u8 },
}

/// Where the slot with `key` is kept: a key below the number of hot slots in
/// the contract account; any other in the overflow record of the key without
/// its low byte, under that low byte.
pub open spec fn spec_storage_location(key: U256) -> StorageLocation {
    if key@ < STORAGE_ENTIRIES_IN_CONTRACT_ACCOUNT {
        StorageLocation::Hot { slot: key.lo as u32 }
    } else {
        StorageLocation::Overflow {
            index: U256 { hi: key.hi, lo: (key.lo - key.lo % 256) as u128 },
            subindex: (key.lo % 256) as u8,
        }
    }
}

/// The overflow record of a key is the key without its low byte, and the
/// subindex is that low byte.
pub proof fn lemma_storage_location(key: U256)
    ensures
        spec_storage_location(key) matches StorageLocation::Hot { slot } ==> slot == key@,
        spec_storage_location(key) matches StorageLocation::Overflow { index, subindex }
            ==> subindex == key@ % 256 && index@ == key@ - key@ % 256,
{
    assert(key@ % 256 == key.lo % 256) by {
        assert(word_base() == 256 * 0x1_0000_0000_0000_0000_0000_0000_0000_00nat);
        vstd::arithmetic::div_mod::lemma_mod_multiples_vanish(
            key.hi as int * 0x1_0000_0000_0000_0000_0000_0000_0000_00int,
            key.lo as int,
            256,
        );
        assert(key.hi as int * word_base() == 256 * (key.hi as int
            * 0x1_0000_0000_0000_0000_0000_0000_0000_00int)) by (nonlinear_arith)
            requires
                word_base() == 256 * 0x1_0000_0000_0000_0000_0000_0000_0000_00nat,
        ;
    }
    if key@ < STORAGE_ENTIRIES_IN_CONTRACT_ACCOUNT {
        assert(key.hi == 0) by (nonlinear_arith)
            requires
                (key.hi as nat * word_base() + key.lo as nat) < 64,
                64 < word_base(),
        ;
    }
}

/// Finds where the slot with `key` is kept.
pub fn storage_location(key: &U256) -> (r: StorageLocation)
    ensures
        r == spec_storage_location(*key),
{
    if key.lt(&U256::from_u64(STORAGE_ENTIRIES_IN_CONTRACT_ACCOUNT as u64)) {
        StorageLocation::Hot { slot: key.lo as u32 }
    } else {
        StorageLocation::Overflow {
            index: U256 { hi: key.hi, lo: key.lo - key.lo % 256 },
            subindex: (key.lo % 256) as u8,
        }
    }
}

/// The number of whole chunks in a record.
pub open spec fn chunk_count(data: Seq<u8>) -> int {
    (data.len() - 1) / 33
}

/// The subindex of chunk `i`.
pub open spec fn chunk_key(data: Seq<u8>, i: int) -> u8 {
    data[1 + 33 * i]
}

/// The value of chunk `i`.
pub open spec fn chunk_value(data: Seq<u8>, i: int) -> Seq<u8> {
    data.subrange(2 + 33 * i, 34 + 33 * i)
}

/// The first chunk at or after `from` that holds `subindex`, or the number of
/// chunks if there is none.
pub open spec fn first_chunk(data: Seq<u8>, subindex: u8, from: int) -> int
    decreases chunk_count(data) - from,
{
    if from >= chunk_count(data) {
        chunk_count(data)
    } else if chunk_key(data, from) == subindex {
        from
    } else {
        first_chunk(data, subindex, from + 1)
    }
}

/// Whether some chunk holds `subindex`.
pub open spec fn holds(data: Seq<u8>, subindex: u8) -> bool {
    first_chunk(data, subindex, 0) < chunk_count(data)
}

/// Thirty-two zero bytes.
pub open spec fn zero_value() -> Seq<u8> {
    Seq::new(32, |i: int| 0u8)
}

/// The value that a record holds for `subindex`.
pub open spec fn stored_value(data: Seq<u8>, subindex: u8) -> Seq<u8> {
    if holds(data, subindex) {
        chunk_value(data, first_chunk(data, subindex, 0))
    } else {
        zero_value()
    }
}

/// Whether the record holds whole chunks only behind its tag byte.
pub open spec fn whole_chunks(data: Seq<u8>) -> bool {
    data.len() >= 1 && (data.len() - 1) % 33 == 0
}

/// Whether no two chunks of the record hold the same subindex.
pub open spec fn distinct_subindexes(data: Seq<u8>) -> bool {
    forall|i: int, j: int|
        0 <= i < j < chunk_count(data) ==> chunk_key(data, i) != chunk_key(data, j)
}

/// The record after `value` was written over the value of chunk `i`.
pub open spec fn overwritten(data: Seq<u8>, i: int, value: Seq<u8>) -> Seq<u8> {
    data.subrange(0, 2 + 33 * i) + value + data.subrange(34 + 33 * i, data.len() as int)
}

/// The record after a chunk with `subindex` and `value` was added at its
/// end.
pub open spec fn appended(data: Seq<u8>, subindex: u8, value: Seq<u8>) -> Seq<u8> {
    data + seq![subindex] + value
}

/// Whether a write for `subindex` lands in a chunk of the record's grid: a
/// whole chunk holds the subindex, or the record holds whole chunks only, so
/// that a chunk added at its end is one.
pub open spec fn settles(data: Seq<u8>, subindex: u8) -> bool {
    holds(data, subindex) || whole_chunks(data)
}

/// An overflow storage record.
#[derive(Debug)]
pub struct EthereumStorage {
    /// The record's bytes: the tag, then the chunks.
    pub data: Vec<u8>,
}

/// The first chunk that holds a subindex lies in the record and holds it.
pub proof fn lemma_first_chunk_bounds(data: Seq<u8>, subindex: u8, from: int)
    requires
        0 <= from,
        data.len() >= 1,
    ensures
        from <= first_chunk(data, subindex, from) || first_chunk(data, subindex, from)
            == chunk_count(data),
        first_chunk(data, subindex, from) <= chunk_count(data) || from > chunk_count(data),
        first_chunk(data, subindex, from) < chunk_count(data) ==> chunk_key(
            data,
            first_chunk(data, subindex, from),
        ) == subindex,
    decreases chunk_count(data) - from,
{
    if from < chunk_count(data) && chunk_key(data, from) != subindex {
        lemma_first_chunk_bounds(data, subindex, from + 1);
    }
}

/// A subindex that no chunk at or after `from` is found for is held by none
/// of them.
pub proof fn lemma_first_chunk_absent(data: Seq<u8>, subindex: u8, from: int)
    requires
        0 <= from,
        first_chunk(data, subindex, from) >= chunk_count(data),
    ensures
        forall|j: int| from <= j < chunk_count(data) ==> chunk_key(data, j) != subindex,
    decreases chunk_count(data) - from,
{
    if from < chunk_count(data) {
        lemma_first_chunk_absent(data, subindex, from + 1);
    }
}

/// Two records with the same chunks' subindexes find every subindex in the
/// same chunk.
pub proof fn lemma_first_chunk_by_keys(a: Seq<u8>, b: Seq<u8>, subindex: u8, from: int)
    requires
        0 <= from,
        chunk_count(a) == chunk_count(b),
        forall|i: int| 0 <= i < chunk_count(a) ==> chunk_key(a, i) == chunk_key(b, i),
    ensures
        first_chunk(a, subindex, from) == first_chunk(b, subindex, from),
    decreases chunk_count(a) - from,
{
    if from < chunk_count(a) && chunk_key(a, from) != subindex {
        lemma_first_chunk_by_keys(a, b, subindex, from + 1);
    }
}

/// A record with one more chunk finds a subindex where the shorter record
/// does, and a subindex that the shorter record lacks in the new chunk or
/// nowhere.
pub proof fn lemma_first_chunk_appended(a: Seq<u8>, b: Seq<u8>, subindex: u8, from: int)
    requires
        0 <= from <= chunk_count(a),
        a.len() >= 1,
        chunk_count(b) == chunk_count(a) + 1,
        forall|i: int| 0 <= i < chunk_count(a) ==> chunk_key(a, i) == chunk_key(b, i),
    ensures
        first_chunk(a, subindex, from) < chunk_count(a) ==> first_chunk(b, subindex, from)
            == first_chunk(a, subindex, from),
        first_chunk(a, subindex, from) >= chunk_count(a) ==> first_chunk(b, subindex, from) == (
        if chunk_key(b, chunk_count(a)) == subindex {
            chunk_count(a)
        } else {
            chunk_count(b)
        }),
    decreases chunk_count(a) - from,
{
    if from < chunk_count(a) {
        if chunk_key(a, from) != subindex {
            lemma_first_chunk_appended(a, b, subindex, from + 1);
        }
    } else {
        assert(first_chunk(b, subindex, from + 1) == chunk_count(b));
    }
}

impl EthereumStorage {
    /// The record starts with its tag.
    pub open spec fn wf(&self) -> bool {
        &&& self.data@.len() >= 1
        &&& self.data@[0] == TAG_CONTRACT_STORAGE
    }

    /// The value that the record holds for `subindex`.
    pub open spec fn spec_get(&self, subindex: u8) -> Seq<u8> {
        stored_value(self.data@, subindex)
    }

    /// A record that holds no slot.
    pub fn new() -> (r: EthereumStorage)
        ensures
            r.wf(),
            whole_chunks(r.data@),
            r.data@ == seq![TAG_CONTRACT_STORAGE],
    {
        let mut data: Vec<u8> = Vec::new();
        data.push(TAG_CONTRACT_STORAGE);
        EthereumStorage { data }
    }

    /// The record with the given bytes, if they start with the tag. Bytes
    /// behind the last whole chunk are kept and never read.
    pub fn from_bytes(data: Vec<u8>) -> (r: Result<EthereumStorage, Error>)
        ensures
            r is Ok <==> (EthereumStorage { data }).wf(),
            r is Ok ==> r.unwrap().data == data,
            r is Err ==> r.unwrap_err() == Error::InvalidTag,
    {
        if data.len() < 1 || data[0] != TAG_CONTRACT_STORAGE {
            return Err(Error::InvalidTag);
        }
        Ok(EthereumStorage { data })
    }

    /// The index of the first chunk that holds `subindex`.
    fn find(&self, subindex: u8) -> (r: Option<usize>)
        requires
            self.data@.len() >= 1,
        ensures
            r is Some <==> holds(self.data@, subindex),
            r is Some ==> r.unwrap() == first_chunk(self.data@, subindex, 0),
    {
        let len: usize = self.data.len();
        let count: usize = (len - 1) / 33;
        let mut i: usize = 0;
        while i < count
            invariant
                len == self.data@.len(),
                len >= 1,
                count == chunk_count(self.data@),
                i <= count,
                first_chunk(self.data@, subindex, 0) == first_chunk(self.data@, subindex, i as int),
            decreases count - i,
        {
            if self.data[1 + 33 * i] == subindex {
                return Some(i);
            }
            i += 1;
        }
        None
    }

    /// Reads the value stored for `subindex`: that of the first whole chunk
    /// that holds it, or zero. Bytes behind the last whole chunk are not
    /// read. The record must hold its tag byte.
    pub fn get(&self, subindex: u8) -> (r: [u8; 32])
        requires
            self.data@.len() >= 1,
        ensures
            r@ == self.spec_get(subindex),
    {
        let mut value: [u8; 32] = [0u8; 32];
        let len: usize = self.data.len();
        match self.find(subindex) {
            Some(i) => {
                let start: usize = 2 + 33 * i;
                let mut k: usize = 0;
                while k < 32
                    invariant
                        len == self.data@.len(),
                        len >= 1,
                        i < chunk_count(self.data@),
                        start == 2 + 33 * i,
                        k <= 32,
                        forall|j: int| 0 <= j < k ==> value@[j] == self.data@[start + j],
                    decreases 32 - k,
                {
                    value[k] = self.data[start + k];
                    k += 1;
                }
                proof {
                    assert(value@ =~= chunk_value(self.data@, i as int));
                }
            },
            None => {
                proof {
                    assert(value@ =~= zero_value());
                }
            },
        }
        value
    }

    /// Stores `value` for `subindex`. Where a whole chunk holds the subindex,
    /// the value of the first such chunk is overwritten and no other byte
    /// changes; the record keeps its length and nothing is due. Else a chunk
    /// with the subindex and the value is added at the end of the record, and
    /// what the record's balance of `lamports` lacks of the rent for its new
    /// size is returned. Afterwards the record reads `value` for the subindex
    /// and what it read before for every other; where a chunk was added this
    /// asks that the record held whole chunks only. The record must hold its
    /// tag byte.
    pub fn set(&mut self, subindex: u8, value: &[u8; 32], rent: &Rent, lamports: u64) -> (r: u64)
        requires
            old(self).data@.len() >= 1,
        ensures
            holds(old(self).data@, subindex) ==> final(self).data@ == overwritten(
                old(self).data@,
                first_chunk(old(self).data@, subindex, 0),
                value@,
            ) && final(self).data@.len() == old(self).data@.len() && r == 0,
            !holds(old(self).data@, subindex) ==> final(self).data@ == appended(
                old(self).data@,
                subindex,
                value@,
            ) && r == crate::executor::gasometer::sat_sub(
                rent.spec_minimum_balance((old(self).data@.len() + 33) as usize),
                lamports,
            ),
            final(self).data@[0] == old(self).data@[0],
            old(self).wf() ==> final(self).wf(),
            whole_chunks(old(self).data@) ==> whole_chunks(final(self).data@),
            settles(old(self).data@, subindex) ==> final(self).spec_get(subindex) == value@,
            settles(old(self).data@, subindex) ==> forall|other: u8|
                other != subindex ==> final(self).spec_get(other) == old(self).spec_get(other),
            settles(old(self).data@, subindex) && distinct_subindexes(old(self).data@)
                ==> distinct_subindexes(final(self).data@),
    {
        let len: usize = self.data.len();
        match self.find(subindex) {
            Some(i) => {
                let start: usize = 2 + 33 * i;
                let mut k: usize = 0;
                while k < 32
                    invariant
                        len == old(self).data@.len(),
                        len >= 1,
                        i < chunk_count(old(self).data@),
                        start == 2 + 33 * i,
                        k <= 32,
                        self.data@.len() == old(self).data@.len(),
                        forall|j: int| 0 <= j < k ==> self.data@[start + j] == value@[j],
                        forall|j: int|
                            0 <= j < self.data@.len() && !(start <= j < start + 32)
                                ==> self.data@[j] == old(self).data@[j],
                    decreases 32 - k,
                {
                    self.data.set(start + k, value[k]);
                    k += 1;
                }
                proof {
                    let before = old(self).data@;
                    let after = self.data@;
                    assert(after =~= overwritten(before, i as int, value@));
                    assert forall|c: int| 0 <= c < chunk_count(before) implies chunk_key(
                        before,
                        c,
                    ) == chunk_key(after, c) by {
                        assert(1 + 33 * c < start || 1 + 33 * c >= start + 32);
                    }
                    lemma_first_chunk_by_keys(before, after, subindex, 0);
                    lemma_first_chunk_bounds(before, subindex, 0);
                    assert(chunk_value(after, i as int) =~= value@);
                    assert forall|other: u8| other != subindex implies stored_value(after, other)
                        == stored_value(before, other) by {
                        lemma_first_chunk_by_keys(before, after, other, 0);
                        lemma_first_chunk_bounds(before, other, 0);
                        let at = first_chunk(before, other, 0);
                        if at < chunk_count(before) {
                            assert(at != i);
                            assert(chunk_value(after, at) =~= chunk_value(before, at));
                        }
                    }
                }
                0
            },
            None => {
                self.data.push(subindex);
                let mut k: usize = 0;
                while k < 32
                    invariant
                        k <= 32,
                        self.data@ == old(self).data@ + seq![subindex] + value@.subrange(
                            0,
                            k as int,
                        ),
                    decreases 32 - k,
                {
                    self.data.push(value[k]);
                    proof {
                        assert(value@.subrange(0, k + 1) =~= value@.subrange(0, k as int).push(
                            value@[k as int],
                        ));
                    }
                    k += 1;
                }
                proof {
                    let before = old(self).data@;
                    let after = self.data@;
                    assert(value@.subrange(0, 32) =~= value@);
                    assert(after =~= appended(before, subindex, value@));
                    let count = chunk_count(before);
                    assert(chunk_count(after) == count + 1);
                    if whole_chunks(before) {
                        assert(chunk_key(after, count) == subindex);
                        assert(chunk_value(after, count) =~= value@);
                        lemma_first_chunk_appended(before, after, subindex, 0);
                        lemma_first_chunk_absent(before, subindex, 0);
                        assert forall|other: u8| other != subindex implies stored_value(
                            after,
                            other,
                        ) == stored_value(before, other) by {
                            lemma_first_chunk_appended(before, after, other, 0);
                            lemma_first_chunk_bounds(before, other, 0);
                            let at = first_chunk(before, other, 0);
                            if at < count {
                                assert(chunk_value(after, at) =~= chunk_value(before, at));
                            }
                        }
                        assert forall|c: int| 0 <= c < count implies chunk_key(before, c)
                            == chunk_key(after, c) by {}
                    }
                }
                let new_len: usize = self.data.len();
                let minimum_balance: u64 = rent.minimum_balance(new_len);
                minimum_balance.saturating_sub(lamports)
            },
        }
    }
}

} // verus!
