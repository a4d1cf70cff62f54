//! The transaction that deploys a contract, as the holder takes it.

use crate::holder::{frame_transaction, spec_frame};
use crate::signature::{keccak256, keccak256_digest, secp256k1_sign, secp256k1_signed};
use vstd::prelude::*;

verus! {

/// The gas limit of a deployment.
pub const DEPLOY_GAS_LIMIT: u64 = 999_999_999_999;

/// The encoder of a list in the recursive length prefix encoding.
#[verifier::external_type_specification]
#[verifier::external_body]
pub struct ExRlpStream(rlp::RlpStream);

/// The items that were appended to the list of the encoder, each as it is
/// encoded.
pub uninterp spec fn stream_items(stream: rlp::RlpStream) -> Seq<Seq<u8>>;

/// The number of items that the list of the encoder was made for.
pub uninterp spec fn stream_capacity(stream: rlp::RlpStream) -> nat;

/// A number in the recursive length prefix encoding.
pub uninterp spec fn rlp_encoded_uint(value: u64) -> Seq<u8>;

/// A byte string in the recursive length prefix encoding.
pub uninterp spec fn rlp_encoded_bytes(data: Seq<u8>) -> Seq<u8>;

/// The list of the encoded items in the recursive length prefix encoding.
pub uninterp spec fn rlp_encoded_list(items: Seq<Seq<u8>>) -> Seq<u8>;

/// `rlp::RlpStream::new_list`: an encoder of a list of `len` items that
/// holds none yet.
#[verifier::external_body]
fn rlp_new_list(len: usize) -> (r: rlp::RlpStream)
    ensures
        stream_items(r).len() == 0,
        stream_capacity(r) == len,
{
    rlp::RlpStream::new_list(len)
}

/// `rlp::RlpStream::append`, with a number: the encoded number becomes the
/// next item of the list. The list must have room for it: the encoder
/// refuses more items than it was made for.
#[verifier::external_body]
fn rlp_append_uint(stream: &mut rlp::RlpStream, value: u64)
    requires
        stream_items(*old(stream)).len() < stream_capacity(*old(stream)),
    ensures
        stream_items(*final(stream)) == stream_items(*old(stream)).push(rlp_encoded_uint(value)),
        stream_capacity(*final(stream)) == stream_capacity(*old(stream)),
{
    stream.append(&value);
}

/// `rlp::RlpStream::append`, with a byte string: the encoded string becomes
/// the next item of the list. The list must have room for it.
#[verifier::external_body]
fn rlp_append_bytes(stream: &mut rlp::RlpStream, data: &[u8])
    requires
        stream_items(*old(stream)).len() < stream_capacity(*old(stream)),
    ensures
        stream_items(*final(stream)) == stream_items(*old(stream)).push(rlp_encoded_bytes(data@)),
        stream_capacity(*final(stream)) == stream_capacity(*old(stream)),
{
    stream.append(&data);
}

/// `rlp::RlpStream::out`: the encoded list of the items. The list must hold
/// as many items as it was made for: the encoder gives out no unfinished
/// list.
#[verifier::external_body]
fn rlp_out(stream: rlp::RlpStream) -> (r: Vec<u8>)
    requires
        stream_items(stream).len() == stream_capacity(stream),
    ensures
        r@ == rlp_encoded_list(stream_items(stream)),
{
    stream.out().to_vec()
}

/// The items of the transaction that creates a contract from
/// `program_data`: the nonce, the gas price zero, the gas limit, no callee,
/// the value zero, the data, the chain, and two empty strings where the
/// signature will stand.
pub open spec fn spec_deploy_items(trx_count: u64, program_data: Seq<u8>, chain_id: u64) -> Seq<
    Seq<u8>,
> {
    seq![
        rlp_encoded_uint(trx_count),
        rlp_encoded_uint(0),
        rlp_encoded_uint(DEPLOY_GAS_LIMIT),
        rlp_encoded_bytes(Seq::empty()),
        rlp_encoded_uint(0),
        rlp_encoded_bytes(program_data),
        rlp_encoded_uint(chain_id),
        rlp_encoded_bytes(Seq::empty()),
        rlp_encoded_bytes(Seq::empty()),
    ]
}

/// The payload of the transaction that creates a contract from
/// `program_data`: the list of its items.
pub open spec fn spec_deploy_payload(trx_count: u64, program_data: Seq<u8>, chain_id: u64) -> Seq<
    u8,
> {
    rlp_encoded_list(spec_deploy_items(trx_count, program_data, chain_id))
}

/// The message that deploys `program_data`, signed with the key: the payload
/// framed behind the signature over its digest; nothing where the key is no
/// secret key.
pub open spec fn spec_deploy_message(
    trx_count: u64,
    program_data: Seq<u8>,
    caller_private: Seq<u8>,
    chain_id: u64,
) -> Option<Seq<u8>> {
    let payload = spec_deploy_payload(trx_count, program_data, chain_id);
    match secp256k1_signed(keccak256_digest(payload), caller_private) {
        Some((signature, recovery_id)) => Some(spec_frame(signature, recovery_id, payload)),
        None => None,
    }
}

/// Encodes the payload of the transaction that creates a contract from
/// `program_data`.
pub fn deploy_payload(trx_count: u64, program_data: &[u8], chain_id: u64) -> (r: Vec<u8>)
    ensures
        r@ == spec_deploy_payload(trx_count, program_data@, chain_id),
{
    let empty: Vec<u8> = Vec::new();
    let mut stream = rlp_new_list(9);
    rlp_append_uint(&mut stream, trx_count);
    rlp_append_uint(&mut stream, 0);
    rlp_append_uint(&mut stream, DEPLOY_GAS_LIMIT);
    rlp_append_bytes(&mut stream, empty.as_slice());
    rlp_append_uint(&mut stream, 0);
    rlp_append_bytes(&mut stream, program_data);
    rlp_append_uint(&mut stream, chain_id);
    rlp_append_bytes(&mut stream, empty.as_slice());
    rlp_append_bytes(&mut stream, empty.as_slice());
    proof {
        assert(empty@ =~= Seq::<u8>::empty());
        assert(stream_items(stream) =~= spec_deploy_items(trx_count, program_data@, chain_id));
    }
    rlp_out(stream)
}

/// Frames a payload behind the signature that was made over its digest.
pub fn signed_message(signed: ([u8; 64], u8), payload: &[u8]) -> (r: Vec<u8>)
    ensures
        r@ == spec_frame(signed.0@, signed.1, payload@),
{
    frame_transaction(&signed.0, signed.1, payload)
}

/// Makes the message that deploys `program_data` as the `trx_count`-th
/// transaction of the caller with the secret key `caller_private`.
pub fn make_deploy_ethereum_transaction(
    trx_count: u64,
    program_data: &[u8],
    caller_private: &[u8; 32],
    chain_id: u64,
) -> (r: Option<Vec<u8>>)
    ensures
        r is Some <==> spec_deploy_message(
            trx_count,
            program_data@,
            caller_private@,
            chain_id,
        ) is Some,
        r is Some ==> r.unwrap()@ == spec_deploy_message(
            trx_count,
            program_data@,
            caller_private@,
            chain_id,
        ).unwrap(),
{
    let rlp_data = deploy_payload(trx_count, program_data, chain_id);
    let digest = keccak256(rlp_data.as_slice());
    match secp256k1_sign(&digest, caller_private) {
        Some(signed) => Some(signed_message(signed, rlp_data.as_slice())),
        None => None,
    }
}

} // verus!
