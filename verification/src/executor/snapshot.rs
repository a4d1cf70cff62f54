//! The suspended execution as bytes: what a Continue needs to go on where
//! the invocation before it stopped.
//!
//! A snapshot is the number of steps taken in little endian, the length of
//! the packed interpreter and the packed interpreter, and the pending
//! actions one after the other. An action is a tag byte and its fields:
//! addresses as their 20 bytes, words as 32 bytes in little endian, byte
//! strings and lists behind their length as eight bytes in little endian.

use crate::buffer::{append_bytes, copy_range, read_array};
use crate::executor::action::{views, Action, ActionView};
use crate::types::Address;
use crate::u256::{lemma_le_bytes_round_trip, U256};
use vstd::bytes::{
    lemma_auto_spec_u64_to_from_le_bytes, spec_u64_from_le_bytes, spec_u64_to_le_bytes,
    u64_from_le_bytes, u64_to_le_bytes,
};
use vstd::prelude::*;
use vstd::slice::slice_subrange;

verus! {

/// The tag of a packed `Transfer`.
pub const TAG_TRANSFER: u8 = 1;

/// The tag of a packed `SetStorage`.
pub const TAG_SET_STORAGE: u8 = 2;

/// The tag of a packed `SetCode`.
pub const TAG_SET_CODE: u8 = 3;

/// The tag of a packed `IncrementNonce`.
pub const TAG_INCREMENT_NONCE: u8 = 4;

/// The tag of a packed `SelfDestruct`.
pub const TAG_SELF_DESTRUCT: u8 = 5;

/// The tag of a packed `EventLog`.
pub const TAG_EVENT_LOG: u8 = 6;

/// The words as bytes, one after the other.
pub open spec fn encode_words(words: Seq<U256>) -> Seq<u8>
    decreases words.len(),
{
    if words.len() == 0 {
        Seq::empty()
    } else {
        encode_words(words.drop_last()) + words.last().spec_to_le_bytes()
    }
}

/// The `count` words that the bytes start with.
pub open spec fn decode_words(bytes: Seq<u8>, count: int) -> Seq<U256> {
    Seq::new(count as nat, |i: int| U256::spec_from_le_bytes(bytes.subrange(32 * i, 32 * i + 32)))
}

/// A byte string behind its length.
pub open spec fn encode_bytes(bytes: Seq<u8>) -> Seq<u8> {
    spec_u64_to_le_bytes(bytes.len() as u64) + bytes
}

/// Whether the action has addresses of 20 bytes and lengths that fit in 64
/// bits, as every action of a log has.
pub open spec fn packable(action: ActionView) -> bool {
    match action {
        ActionView::Transfer { source, target, .. } => source.len() == 20 && target.len() == 20,
        ActionView::SetStorage { address, .. } => address.len() == 20,
        ActionView::SetCode { address, code } => address.len() == 20 && code.len() <= u64::MAX,
        ActionView::IncrementNonce { address } => address.len() == 20,
        ActionView::SelfDestruct { address } => address.len() == 20,
        ActionView::EventLog { address, topics, data } => address.len() == 20 && topics.len()
            <= u64::MAX && data.len() <= u64::MAX,
    }
}

/// The action as bytes.
pub open spec fn encode_action(action: ActionView) -> Seq<u8> {
    match action {
        ActionView::Transfer { source, target, value } => seq![TAG_TRANSFER] + source + target
            + value.spec_to_le_bytes(),
        ActionView::SetStorage { address, key, value } => seq![TAG_SET_STORAGE] + address
            + key.spec_to_le_bytes() + value.spec_to_le_bytes(),
        ActionView::SetCode { address, code } => seq![TAG_SET_CODE] + address + encode_bytes(code),
        ActionView::IncrementNonce { address } => seq![TAG_INCREMENT_NONCE] + address,
        ActionView::SelfDestruct { address } => seq![TAG_SELF_DESTRUCT] + address,
        ActionView::EventLog { address, topics, data } => seq![TAG_EVENT_LOG] + address
            + spec_u64_to_le_bytes(topics.len() as u64) + encode_words(topics) + encode_bytes(data),
    }
}

/// The actions as bytes, one after the other.
pub open spec fn encode_actions(actions: Seq<ActionView>) -> Seq<u8>
    decreases actions.len(),
{
    if actions.len() == 0 {
        Seq::empty()
    } else {
        encode_action(actions.first()) + encode_actions(actions.drop_first())
    }
}

/// The byte string that the bytes carry from `at` on, behind its length,
/// and where it ends; nothing where the bytes are too short.
pub open spec fn decode_bytes(bytes: Seq<u8>, at: int) -> Option<(Seq<u8>, int)> {
    if at + 8 > bytes.len() {
        None
    } else {
        let len = spec_u64_from_le_bytes(bytes.subrange(at, at + 8)) as int;
        if at + 8 + len > bytes.len() {
            None
        } else {
            Some((bytes.subrange(at + 8, at + 8 + len), at + 8 + len))
        }
    }
}

/// The action that the bytes start with, and its length; nothing where they
/// start with none.
pub open spec fn decode_action(bytes: Seq<u8>) -> Option<(ActionView, int)> {
    if bytes.len() < 21 {
        None
    } else {
        let tag = bytes[0];
        let address = bytes.subrange(1, 21);
        if tag == TAG_TRANSFER {
            if bytes.len() < 73 {
                None
            } else {
                Some(
                    (
                        ActionView::Transfer {
                            source: address,
                            target: bytes.subrange(21, 41),
                            value: U256::spec_from_le_bytes(bytes.subrange(41, 73)),
                        },
                        73,
                    ),
                )
            }
        } else if tag == TAG_SET_STORAGE {
            if bytes.len() < 85 {
                None
            } else {
                Some(
                    (
                        ActionView::SetStorage {
                            address,
                            key: U256::spec_from_le_bytes(bytes.subrange(21, 53)),
                            value: U256::spec_from_le_bytes(bytes.subrange(53, 85)),
                        },
                        85,
                    ),
                )
            }
        } else if tag == TAG_SET_CODE {
            match decode_bytes(bytes, 21) {
                Some((code, end)) => Some((ActionView::SetCode { address, code }, end)),
                None => None,
            }
        } else if tag == TAG_INCREMENT_NONCE {
            Some((ActionView::IncrementNonce { address }, 21))
        } else if tag == TAG_SELF_DESTRUCT {
            Some((ActionView::SelfDestruct { address }, 21))
        } else if tag == TAG_EVENT_LOG {
            if bytes.len() < 29 {
                None
            } else {
                let count = spec_u64_from_le_bytes(bytes.subrange(21, 29)) as int;
                if 29 + 32 * count > bytes.len() {
                    None
                } else {
                    match decode_bytes(bytes, 29 + 32 * count) {
                        Some((data, end)) => Some(
                            (
                                ActionView::EventLog {
                                    address,
                                    topics: decode_words(bytes.subrange(29, 29 + 32 * count), count),
                                    data,
                                },
                                end,
                            ),
                        ),
                        None => None,
                    }
                }
            }
        } else {
            None
        }
    }
}

/// The actions that the bytes are made of; nothing where they are not made
/// of actions.
pub open spec fn decode_actions(bytes: Seq<u8>) -> Option<Seq<ActionView>>
    decreases bytes.len(),
{
    if bytes.len() == 0 {
        Some(Seq::empty())
    } else {
        match decode_action(bytes) {
            Some((action, len)) => if 0 < len <= bytes.len() {
                match decode_actions(bytes.skip(len)) {
                    Some(rest) => Some(seq![action] + rest),
                    None => None,
                }
            } else {
                None
            },
            None => None,
        }
    }
}

/// Packed words take 32 bytes each.
pub proof fn lemma_encode_words_len(words: Seq<U256>)
    ensures
        encode_words(words).len() == 32 * words.len(),
    decreases words.len(),
{
    if words.len() > 0 {
        lemma_encode_words_len(words.drop_last());
        lemma_le_bytes_round_trip(words.last(), Seq::empty());
    }
}

/// Packed words unpack to themselves.
pub proof fn lemma_words_round_trip(words: Seq<U256>)
    ensures
        decode_words(encode_words(words), words.len() as int) == words,
    decreases words.len(),
{
    let packed = encode_words(words);
    lemma_encode_words_len(words);
    if words.len() > 0 {
        let head = words.drop_last();
        lemma_words_round_trip(head);
        lemma_encode_words_len(head);
        lemma_le_bytes_round_trip(words.last(), Seq::empty());
        assert forall|i: int| 0 <= i < words.len() implies decode_words(
            packed,
            words.len() as int,
        )[i] == words[i] by {
            if i < head.len() {
                assert(packed.subrange(32 * i, 32 * i + 32) =~= encode_words(head).subrange(
                    32 * i,
                    32 * i + 32,
                ));
                assert(decode_words(encode_words(head), head.len() as int)[i] == head[i]);
            } else {
                assert(packed.subrange(32 * i, 32 * i + 32) =~= words.last().spec_to_le_bytes());
            }
        }
    }
    assert(decode_words(packed, words.len() as int) =~= words);
}

/// A packed byte string, wherever it stands, unpacks to itself.
pub proof fn lemma_bytes_round_trip(before: Seq<u8>, bytes: Seq<u8>, after: Seq<u8>)
    requires
        bytes.len() <= u64::MAX,
    ensures
        decode_bytes(before + encode_bytes(bytes) + after, before.len() as int) == Some(
            (bytes, before.len() as int + 8 + bytes.len()),
        ),
{
    lemma_auto_spec_u64_to_from_le_bytes();
    let all = before + encode_bytes(bytes) + after;
    let at = before.len() as int;
    assert(all.subrange(at, at + 8) =~= spec_u64_to_le_bytes(bytes.len() as u64));
    assert(all.subrange(at + 8, at + 8 + bytes.len()) =~= bytes);
}

/// A packed action, whatever follows it, unpacks to itself.
pub proof fn lemma_action_round_trip(action: ActionView, after: Seq<u8>)
    requires
        packable(action),
    ensures
        decode_action(encode_action(action) + after) == Some(
            (action, encode_action(action).len() as int),
        ),
        encode_action(action).len() >= 21,
{
    lemma_auto_spec_u64_to_from_le_bytes();
    let packed = encode_action(action);
    let all = packed + after;
    match action {
        ActionView::Transfer { source, target, value } => {
            lemma_le_bytes_round_trip(value, Seq::empty());
            assert(all.subrange(1, 21) =~= source);
            assert(all.subrange(21, 41) =~= target);
            assert(all.subrange(41, 73) =~= value.spec_to_le_bytes());
        },
        ActionView::SetStorage { address, key, value } => {
            lemma_le_bytes_round_trip(key, Seq::empty());
            lemma_le_bytes_round_trip(value, Seq::empty());
            assert(all.subrange(1, 21) =~= address);
            assert(all.subrange(21, 53) =~= key.spec_to_le_bytes());
            assert(all.subrange(53, 85) =~= value.spec_to_le_bytes());
        },
        ActionView::SetCode { address, code } => {
            assert(all.subrange(1, 21) =~= address);
            lemma_bytes_round_trip(seq![TAG_SET_CODE] + address, code, after);
            assert(all =~= seq![TAG_SET_CODE] + address + encode_bytes(code) + after);
        },
        ActionView::IncrementNonce { address } => {
            assert(all.subrange(1, 21) =~= address);
        },
        ActionView::SelfDestruct { address } => {
            assert(all.subrange(1, 21) =~= address);
        },
        ActionView::EventLog { address, topics, data } => {
            lemma_encode_words_len(topics);
            lemma_words_round_trip(topics);
            let count = topics.len() as int;
            let head = seq![TAG_EVENT_LOG] + address + spec_u64_to_le_bytes(topics.len() as u64)
                + encode_words(topics);
            assert(all.subrange(1, 21) =~= address);
            assert(all.subrange(21, 29) =~= spec_u64_to_le_bytes(topics.len() as u64));
            assert(all.subrange(29, 29 + 32 * count) =~= encode_words(topics));
            lemma_bytes_round_trip(head, data, after);
            assert(all =~= head + encode_bytes(data) + after);
        },
    }
}

/// Packed actions unpack to themselves: a log survives the suspension action
/// by action.
pub proof fn lemma_actions_round_trip(actions: Seq<ActionView>)
    requires
        forall|i: int| 0 <= i < actions.len() ==> packable(#[trigger] actions[i]),
    ensures
        decode_actions(encode_actions(actions)) == Some(actions),
    decreases actions.len(),
{
    if actions.len() > 0 {
        let first = actions.first();
        let rest = actions.drop_first();
        let tail = encode_actions(rest);
        lemma_action_round_trip(first, tail);
        assert forall|i: int| 0 <= i < rest.len() implies packable(#[trigger] rest[i]) by {
            assert(rest[i] == actions[i + 1]);
        }
        lemma_actions_round_trip(rest);
        let all = encode_actions(actions);
        assert(all.skip(encode_action(first).len() as int) =~= tail);
        assert(seq![first] + rest =~= actions);
    } else {
        assert(actions =~= Seq::<ActionView>::empty());
    }
}

/// The actions of a log with one more action pack to what the log packs to
/// and then the action.
pub proof fn lemma_encode_actions_push(actions: Seq<ActionView>, action: ActionView)
    ensures
        encode_actions(actions.push(action)) == encode_actions(actions) + encode_action(action),
    decreases actions.len(),
{
    let all = actions.push(action);
    if actions.len() == 0 {
        assert(all.drop_first() =~= Seq::<ActionView>::empty());
        assert(encode_actions(all.drop_first()) =~= Seq::<u8>::empty());
        assert(encode_actions(all) =~= encode_action(action));
        assert(encode_actions(actions) + encode_action(action) =~= encode_action(action));
    } else {
        assert(all.drop_first() =~= actions.drop_first().push(action));
        lemma_encode_actions_push(actions.drop_first(), action);
        assert(encode_actions(all) =~= encode_actions(actions) + encode_action(action));
    }
}

/// Every action of a log has addresses of 20 bytes and lengths that fit in
/// 64 bits.
pub proof fn lemma_action_packable(action: Action)
    ensures
        packable(action@),
{
    broadcast use vstd::array::array_len_matches_n;
    broadcast use vstd::std_specs::vec::axiom_spec_len;

    match action {
        Action::Transfer { source, target, .. } => {
            assert(source.bytes@.len() == 20);
            assert(target.bytes@.len() == 20);
        },
        Action::SetStorage { address, .. } => {
            assert(address.bytes@.len() == 20);
        },
        Action::SetCode { address, code } => {
            assert(address.bytes@.len() == 20);
            assert(code@.len() == code.len());
        },
        Action::IncrementNonce { address } => {
            assert(address.bytes@.len() == 20);
        },
        Action::SelfDestruct { address } => {
            assert(address.bytes@.len() == 20);
        },
        Action::EventLog { address, topics, data } => {
            assert(address.bytes@.len() == 20);
            assert(topics@.len() == topics.len());
            assert(data@.len() == data.len());
        },
    }
}

/// Appends a byte string behind its length.
fn append_counted(out: &mut Vec<u8>, bytes: &[u8])
    ensures
        final(out)@ == old(out)@ + encode_bytes(bytes@),
{
    let length = u64_to_le_bytes(bytes.len() as u64);
    append_bytes(out, length.as_slice());
    append_bytes(out, bytes);
    proof {
        assert(out@ =~= old(out)@ + encode_bytes(bytes@));
    }
}

/// Appends the words, one after the other.
fn append_words(out: &mut Vec<u8>, words: &Vec<U256>)
    ensures
        final(out)@ == old(out)@ + encode_words(words@),
{
    let mut i: usize = 0;
    proof {
        assert(words@.take(0) =~= Seq::<U256>::empty());
        assert(out@ =~= old(out)@ + encode_words(words@.take(0)));
    }
    while i < words.len()
        invariant
            i <= words@.len(),
            out@ == old(out)@ + encode_words(words@.take(i as int)),
        decreases words@.len() - i,
    {
        let bytes = words[i].to_le_bytes();
        append_bytes(out, bytes.as_slice());
        proof {
            let next = words@.take(i + 1);
            assert(next.drop_last() =~= words@.take(i as int));
            assert(next.last() == words@[i as int]);
            assert(out@ =~= old(out)@ + encode_words(next));
        }
        i += 1;
    }
    proof {
        assert(words@.take(i as int) =~= words@);
    }
}

/// Appends the action as bytes.
fn append_action(out: &mut Vec<u8>, action: &Action)
    ensures
        final(out)@ == old(out)@ + encode_action(action@),
{
    match action {
        Action::Transfer { source, target, value } => {
            out.push(TAG_TRANSFER);
            append_bytes(out, source.bytes.as_slice());
            append_bytes(out, target.bytes.as_slice());
            let word = value.to_le_bytes();
            append_bytes(out, word.as_slice());
        },
        Action::SetStorage { address, key, value } => {
            out.push(TAG_SET_STORAGE);
            append_bytes(out, address.bytes.as_slice());
            let word = key.to_le_bytes();
            append_bytes(out, word.as_slice());
            let word = value.to_le_bytes();
            append_bytes(out, word.as_slice());
        },
        Action::SetCode { address, code } => {
            out.push(TAG_SET_CODE);
            append_bytes(out, address.bytes.as_slice());
            append_counted(out, code.as_slice());
        },
        Action::IncrementNonce { address } => {
            out.push(TAG_INCREMENT_NONCE);
            append_bytes(out, address.bytes.as_slice());
        },
        Action::SelfDestruct { address } => {
            out.push(TAG_SELF_DESTRUCT);
            append_bytes(out, address.bytes.as_slice());
        },
        Action::EventLog { address, topics, data } => {
            out.push(TAG_EVENT_LOG);
            append_bytes(out, address.bytes.as_slice());
            let count = u64_to_le_bytes(topics.len() as u64);
            append_bytes(out, count.as_slice());
            append_words(out, topics);
            append_counted(out, data.as_slice());
        },
    }
    proof {
        assert(out@ =~= old(out)@ + encode_action(action@));
    }
}

/// Packs a log of actions.
pub fn pack_actions(actions: &Vec<Action>) -> (r: Vec<u8>)
    ensures
        r@ == encode_actions(views(actions@)),
{
    let mut out: Vec<u8> = Vec::new();
    append_actions(&mut out, actions);
    proof {
        assert(out@ =~= encode_actions(views(actions@)));
    }
    out
}

/// Appends a log of actions as bytes.
fn append_actions(out: &mut Vec<u8>, actions: &Vec<Action>)
    ensures
        final(out)@ == old(out)@ + encode_actions(views(actions@)),
{
    let mut i: usize = 0;
    proof {
        assert(views(actions@.take(0)) =~= Seq::<ActionView>::empty());
        assert(out@ =~= old(out)@ + encode_actions(views(actions@.take(0))));
    }
    while i < actions.len()
        invariant
            i <= actions@.len(),
            out@ == old(out)@ + encode_actions(views(actions@.take(i as int))),
        decreases actions@.len() - i,
    {
        append_action(out, &actions[i]);
        proof {
            let done = views(actions@.take(i as int));
            assert(views(actions@.take(i + 1)) =~= done.push(actions@[i as int]@));
            lemma_encode_actions_push(done, actions@[i as int]@);
            assert(out@ =~= old(out)@ + encode_actions(views(actions@.take(i + 1))));
        }
        i += 1;
    }
    proof {
        assert(actions@.take(i as int) =~= actions@);
    }
}

/// Reads the byte string that stands at `at` behind its length.
fn read_counted(bytes: &[u8], start: usize, at: usize) -> (r: Option<(Vec<u8>, usize)>)
    requires
        start <= at <= bytes@.len(),
    ensures
        r is Some <==> decode_bytes(bytes@.skip(start as int), at - start) is Some,
        r is Some ==> r.unwrap().0@ == decode_bytes(bytes@.skip(start as int), at - start).unwrap().0,
        r is Some ==> r.unwrap().1 - start == decode_bytes(
            bytes@.skip(start as int),
            at - start,
        ).unwrap().1,
        r is Some ==> at < r.unwrap().1 <= bytes@.len(),
{
    let total: usize = bytes.len();
    let ghost tail = bytes@.skip(start as int);
    if total - at < 8 {
        return None;
    }
    proof {
        assert(tail.subrange(at - start, at - start + 8) =~= bytes@.subrange(at as int, at + 8));
    }
    let len: u64 = u64_from_le_bytes(slice_subrange(bytes, at, at + 8));
    if len > (total - at - 8) as u64 {
        return None;
    }
    let end: usize = at + 8 + len as usize;
    let data = copy_range(bytes, at + 8, end);
    proof {
        assert(data@ =~= tail.subrange(at - start + 8, at - start + 8 + len));
    }
    Some((data, end))
}

/// Reads `count` words from `at` on.
fn read_words(bytes: &[u8], at: usize, count: usize) -> (r: Vec<U256>)
    requires
        at + 32 * count <= bytes@.len(),
    ensures
        r@ == decode_words(bytes@.subrange(at as int, at + 32 * count), count as int),
{
    let total: usize = bytes.len();
    let ghost region = bytes@.subrange(at as int, at + 32 * count);
    let mut words: Vec<U256> = Vec::new();
    let mut i: usize = 0;
    while i < count
        invariant
            total == bytes@.len(),
            at + 32 * count <= bytes@.len(),
            region == bytes@.subrange(at as int, at + 32 * count),
            i <= count,
            words@.len() == i,
            forall|j: int|
                0 <= j < i ==> words@[j] == U256::spec_from_le_bytes(
                    region.subrange(32 * j, 32 * j + 32),
                ),
        decreases count - i,
    {
        let from: usize = at + 32 * i;
        let word = U256::from_le_bytes(slice_subrange(bytes, from, from + 32));
        proof {
            assert(bytes@.subrange(from as int, from + 32) =~= region.subrange(32 * i, 32 * i + 32));
        }
        words.push(word);
        i += 1;
    }
    proof {
        assert(words@ =~= decode_words(region, count as int));
    }
    words
}

/// Reads the action that stands at `at`, and where it ends.
fn read_action(bytes: &[u8], at: usize) -> (r: Option<(Action, usize)>)
    requires
        at <= bytes@.len(),
    ensures
        r is Some <==> decode_action(bytes@.skip(at as int)) is Some,
        r is Some ==> r.unwrap().0@ == decode_action(bytes@.skip(at as int)).unwrap().0,
        r is Some ==> r.unwrap().1 - at == decode_action(bytes@.skip(at as int)).unwrap().1,
        r is Some ==> at < r.unwrap().1 <= bytes@.len(),
{
    let total: usize = bytes.len();
    let ghost tail = bytes@.skip(at as int);
    if total - at < 21 {
        return None;
    }
    let tag: u8 = bytes[at];
    let address = Address::from_bytes(read_array::<20>(bytes, at + 1));
    proof {
        assert(tail[0] == bytes@[at as int]);
        assert(tail.subrange(1, 21) =~= bytes@.subrange(at + 1, at + 21));
    }
    if tag == TAG_TRANSFER {
        if total - at < 73 {
            return None;
        }
        let target = Address::from_bytes(read_array::<20>(bytes, at + 21));
        let value = U256::from_le_bytes(slice_subrange(bytes, at + 41, at + 73));
        proof {
            assert(tail.subrange(21, 41) =~= bytes@.subrange(at + 21, at + 41));
            assert(tail.subrange(41, 73) =~= bytes@.subrange(at + 41, at + 73));
        }
        Some((Action::Transfer { source: address, target, value }, at + 73))
    } else if tag == TAG_SET_STORAGE {
        if total - at < 85 {
            return None;
        }
        let key = U256::from_le_bytes(slice_subrange(bytes, at + 21, at + 53));
        let value = U256::from_le_bytes(slice_subrange(bytes, at + 53, at + 85));
        proof {
            assert(tail.subrange(21, 53) =~= bytes@.subrange(at + 21, at + 53));
            assert(tail.subrange(53, 85) =~= bytes@.subrange(at + 53, at + 85));
        }
        Some((Action::SetStorage { address, key, value }, at + 85))
    } else if tag == TAG_SET_CODE {
        match read_counted(bytes, at, at + 21) {
            Some((code, end)) => Some((Action::SetCode { address, code }, end)),
            None => None,
        }
    } else if tag == TAG_INCREMENT_NONCE {
        Some((Action::IncrementNonce { address }, at + 21))
    } else if tag == TAG_SELF_DESTRUCT {
        Some((Action::SelfDestruct { address }, at + 21))
    } else if tag == TAG_EVENT_LOG {
        if total - at < 29 {
            return None;
        }
        let count: u64 = u64_from_le_bytes(slice_subrange(bytes, at + 21, at + 29));
        proof {
            assert(tail.subrange(21, 29) =~= bytes@.subrange(at + 21, at + 29));
        }
        if count > ((total - at - 29) / 32) as u64 {
            return None;
        }
        let count: usize = count as usize;
        let topics = read_words(bytes, at + 29, count);
        proof {
            assert(tail.subrange(29, 29 + 32 * count) =~= bytes@.subrange(
                at + 29,
                at + 29 + 32 * count,
            ));
        }
        match read_counted(bytes, at, at + 29 + 32 * count) {
            Some((data, end)) => Some((Action::EventLog { address, topics, data }, end)),
            None => None,
        }
    } else {
        None
    }
}

/// Unpacks a log of actions; nothing where the bytes are not made of
/// actions.
pub fn unpack_actions(bytes: &[u8]) -> (r: Option<Vec<Action>>)
    ensures
        r is Some <==> decode_actions(bytes@) is Some,
        r is Some ==> views(r.unwrap()@) == decode_actions(bytes@).unwrap(),
{
    proof {
        assert(bytes@.skip(0) =~= bytes@);
    }
    read_actions(bytes, 0)
}

/// Reads the actions that the bytes are made of from `start` on.
fn read_actions(bytes: &[u8], start: usize) -> (r: Option<Vec<Action>>)
    requires
        start <= bytes@.len(),
    ensures
        r is Some <==> decode_actions(bytes@.skip(start as int)) is Some,
        r is Some ==> views(r.unwrap()@) == decode_actions(bytes@.skip(start as int)).unwrap(),
{
    let total: usize = bytes.len();
    let mut actions: Vec<Action> = Vec::new();
    let mut at: usize = start;
    proof {
        assert(views(actions@) =~= Seq::<ActionView>::empty());
        lemma_decoded_so_far(bytes@.skip(start as int), Seq::empty(), bytes@.skip(at as int));
    }
    while at < total
        invariant
            total == bytes@.len(),
            start <= at <= total,
            decode_actions(bytes@.skip(start as int)) == prepended(
                views(actions@),
                decode_actions(bytes@.skip(at as int)),
            ),
        decreases total - at,
    {
        let ghost tail = bytes@.skip(at as int);
        match read_action(bytes, at) {
            Some((action, end)) => {
                proof {
                    assert(tail.skip(end - at) =~= bytes@.skip(end as int));
                    let rest = decode_actions(bytes@.skip(end as int));
                    assert(views(actions@.push(action)) =~= views(actions@).push(action@));
                    lemma_prepended_push(views(actions@), action@, rest);
                }
                actions.push(action);
                at = end;
            },
            None => {
                return None;
            },
        }
    }
    proof {
        assert(bytes@.skip(at as int).len() == 0);
        assert(views(actions@) + Seq::<ActionView>::empty() =~= views(actions@));
    }
    Some(actions)
}

/// The actions `done` in front of the actions that follow, where any
/// follow.
pub open spec fn prepended(done: Seq<ActionView>, rest: Option<Seq<ActionView>>) -> Option<
    Seq<ActionView>,
> {
    match rest {
        Some(rest) => Some(done + rest),
        None => None,
    }
}

/// Nothing in front of what the bytes decode to is what they decode to.
proof fn lemma_decoded_so_far(all: Seq<u8>, done: Seq<ActionView>, tail: Seq<u8>)
    requires
        done.len() == 0,
        tail == all,
    ensures
        decode_actions(all) == prepended(done, decode_actions(tail)),
{
    match decode_actions(all) {
        Some(actions) => {
            assert(done + actions =~= actions);
        },
        None => {},
    }
}

/// One more action behind those done, in front of the rest, is those done
/// in front of the action and the rest.
proof fn lemma_prepended_push(done: Seq<ActionView>, action: ActionView, rest: Option<Seq<ActionView>>)
    ensures
        prepended(done.push(action), rest) == prepended(
            done,
            match rest {
                Some(rest) => Some(seq![action] + rest),
                None => None,
            },
        ),
{
    match rest {
        Some(rest) => {
            assert(done.push(action) + rest =~= done + (seq![action] + rest));
        },
        None => {},
    }
}

/// A suspended execution: how far the interpreter got, the interpreter as it
/// packed itself, with its call stack, its program counters and the gas it
/// has left, and the actions that are pending.
#[derive(Clone, Debug)]
pub struct ExecutionSnapshot {
    /// The steps taken so far.
    pub steps_executed: u64,
    /// The packed interpreter.
    pub machine: Vec<u8>,
    /// The pending actions, oldest first.
    pub actions: Vec<Action>,
}

/// What a snapshot holds, as plain values.
pub struct SnapshotView {
    pub steps_executed: u64,
    pub machine: Seq<u8>,
    pub actions: Seq<ActionView>,
}

/// The snapshot as bytes.
pub open spec fn encode_snapshot(snapshot: SnapshotView) -> Seq<u8> {
    spec_u64_to_le_bytes(snapshot.steps_executed) + encode_bytes(snapshot.machine)
        + encode_actions(snapshot.actions)
}

/// The snapshot that the bytes hold; nothing where they hold none.
pub open spec fn decode_snapshot(bytes: Seq<u8>) -> Option<SnapshotView> {
    if bytes.len() < 8 {
        None
    } else {
        match decode_bytes(bytes, 8) {
            Some((machine, end)) => match decode_actions(bytes.skip(end)) {
                Some(actions) => Some(
                    SnapshotView {
                        steps_executed: spec_u64_from_le_bytes(bytes.subrange(0, 8)),
                        machine,
                        actions,
                    },
                ),
                None => None,
            },
            None => None,
        }
    }
}

/// A packed snapshot unpacks to itself: the execution goes on with exactly
/// what it was suspended with.
pub proof fn lemma_snapshot_round_trip(snapshot: SnapshotView)
    requires
        snapshot.machine.len() <= u64::MAX,
        forall|i: int| 0 <= i < snapshot.actions.len() ==> packable(#[trigger] snapshot.actions[i]),
    ensures
        decode_snapshot(encode_snapshot(snapshot)) == Some(snapshot),
{
    lemma_auto_spec_u64_to_from_le_bytes();
    let steps = spec_u64_to_le_bytes(snapshot.steps_executed);
    let tail = encode_actions(snapshot.actions);
    let all = encode_snapshot(snapshot);
    lemma_bytes_round_trip(steps, snapshot.machine, tail);
    lemma_actions_round_trip(snapshot.actions);
    assert(all.subrange(0, 8) =~= steps);
    assert(all.skip(8 + 8 + snapshot.machine.len() as int) =~= tail);
}

/// Every snapshot survives packing: what it unpacks to holds the steps, the
/// interpreter byte for byte, and the pending actions in their order.
pub proof fn law_snapshot_survives(snapshot: ExecutionSnapshot)
    ensures
        decode_snapshot(encode_snapshot(snapshot@)) == Some(snapshot@),
{
    broadcast use vstd::std_specs::vec::axiom_spec_len;

    assert(snapshot.machine@.len() == snapshot.machine.len());
    assert forall|i: int| 0 <= i < snapshot@.actions.len() implies packable(
        #[trigger] snapshot@.actions[i],
    ) by {
        lemma_action_packable(snapshot.actions@[i]);
    }
    lemma_snapshot_round_trip(snapshot@);
}

impl View for ExecutionSnapshot {
    type V = SnapshotView;

    open spec fn view(&self) -> SnapshotView {
        SnapshotView {
            steps_executed: self.steps_executed,
            machine: self.machine@,
            actions: views(self.actions@),
        }
    }
}

impl ExecutionSnapshot {
    /// Packs the snapshot for the session.
    pub fn pack(&self) -> (r: Vec<u8>)
        ensures
            r@ == encode_snapshot(self@),
    {
        let mut out = u64_to_le_bytes(self.steps_executed);
        append_counted(&mut out, self.machine.as_slice());
        append_actions(&mut out, &self.actions);
        out
    }

    /// Unpacks the snapshot of a session; nothing where the bytes hold none.
    pub fn unpack(bytes: &[u8]) -> (r: Option<ExecutionSnapshot>)
        ensures
            r is Some <==> decode_snapshot(bytes@) is Some,
            r is Some ==> r.unwrap()@ == decode_snapshot(bytes@).unwrap(),
    {
        if bytes.len() < 8 {
            return None;
        }
        let steps_executed = u64_from_le_bytes(slice_subrange(bytes, 0, 8));
        proof {
            assert(bytes@.skip(0) =~= bytes@);
        }
        let (machine, end) = match read_counted(bytes, 0, 8) {
            Some(read) => read,
            None => {
                return None;
            },
        };
        match read_actions(bytes, end) {
            Some(actions) => Some(ExecutionSnapshot { steps_executed, machine, actions }),
            None => None,
        }
    }
}

} // verus!
