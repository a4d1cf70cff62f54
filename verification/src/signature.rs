//! Who signed a transaction: the address recovered from its signature.

use crate::types::Address;
use vstd::prelude::*;

verus! {

/// The Keccak-256 digest of the data.
pub uninterp spec fn keccak256_digest(data: Seq<u8>) -> Seq<u8>;

/// The public key, without its leading format byte, that made the signature
/// over the hash, if the signature and the recovery id are those of one.
pub uninterp spec fn recovered_key(hash: Seq<u8>, recovery_id: u8, signature: Seq<u8>) -> Option<
    Seq<u8>,
>;

/// The signature that the secret key makes over the hash, as its 64 bytes
/// and its recovery id, if the 32 bytes are a secret key.
pub uninterp spec fn secp256k1_signed(hash: Seq<u8>, secret: Seq<u8>) -> Option<(Seq<u8>, u8)>;

/// The public key of the secret key, as 65 bytes that start with the format
/// byte, if the 32 bytes are a secret key.
pub uninterp spec fn secp256k1_public(secret: Seq<u8>) -> Option<Seq<u8>>;

/// `libsecp256k1::sign`, on the key that `libsecp256k1::SecretKey::parse`
/// makes of the 32 bytes: the signature over the hash and its recovery id.
/// The signature is the same whenever the same key signs the same hash.
#[verifier::external_body]
pub(crate) fn secp256k1_sign(hash: &[u8; 32], secret: &[u8; 32]) -> (r: Option<([u8; 64], u8)>)
    ensures
        r is Some <==> secp256k1_signed(hash@, secret@) is Some,
        r is Some ==> r.unwrap().0@ == secp256k1_signed(hash@, secret@).unwrap().0,
        r is Some ==> r.unwrap().1 == secp256k1_signed(hash@, secret@).unwrap().1,
{
    match libsecp256k1::SecretKey::parse(secret) {
        Ok(key) => {
            let message = libsecp256k1::Message::parse(hash);
            let (signature, recovery_id) = libsecp256k1::sign(&message, &key);
            Some((signature.serialize(), recovery_id.serialize()))
        },
        Err(_) => None,
    }
}

/// `libsecp256k1::PublicKey::from_secret_key`, on the key that
/// `libsecp256k1::SecretKey::parse` makes of the 32 bytes: the public key in
/// its full form.
#[verifier::external_body]
fn secp256k1_public_key(secret: &[u8; 32]) -> (r: Option<[u8; 65]>)
    ensures
        r is Some <==> secp256k1_public(secret@) is Some,
        r is Some ==> r.unwrap()@ == secp256k1_public(secret@).unwrap(),
{
    match libsecp256k1::SecretKey::parse(secret) {
        Ok(key) => Some(libsecp256k1::PublicKey::from_secret_key(&key).serialize()),
        Err(_) => None,
    }
}

/// `solana_program::keccak::hash`: the Keccak-256 digest of the data.
#[verifier::external_body]
pub(crate) fn keccak256(data: &[u8]) -> (r: [u8; 32])
    ensures
        r@ == keccak256_digest(data@),
{
    solana_program::keccak::hash(data).to_bytes()
}

/// `solana_program::secp256k1_recover::secp256k1_recover`: the 64 bytes of
/// the public key that signed the hash, and nothing where the recovery id or
/// the signature is not valid.
#[verifier::external_body]
fn secp256k1_recover(hash: &[u8; 32], recovery_id: u8, signature: &[u8]) -> (r: Option<[u8; 64]>)
    ensures
        r is Some <==> recovered_key(hash@, recovery_id, signature@) is Some,
        r is Some ==> r.unwrap()@ == recovered_key(hash@, recovery_id, signature@).unwrap(),
{
    match solana_program::secp256k1_recover::secp256k1_recover(hash, recovery_id, signature) {
        Ok(key) => Some(key.to_bytes()),
        Err(_) => None,
    }
}

/// The address that signed the hash: the last 20 bytes of the digest of the
/// recovered key. The signature is 64 bytes followed by the recovery id.
pub open spec fn spec_caller_address(hash: Seq<u8>, signature: Seq<u8>) -> Option<Seq<u8>> {
    match recovered_key(hash, signature[64], signature.subrange(0, 64)) {
        Some(key) => Some(keccak256_digest(key).subrange(12, 32)),
        None => None,
    }
}

/// The address of a key by the digest of the key: its last 20 bytes.
pub fn address_of_digest(digest: &[u8; 32]) -> (r: Address)
    ensures
        r@ == digest@.subrange(12, 32),
{
    let mut bytes: [u8; 20] = [0u8; 20];
    let mut i: usize = 0;
    while i < 20
        invariant
            i <= 20,
            forall|j: int| 0 <= j < i ==> bytes@[j] == digest@[12 + j],
        decreases 20 - i,
    {
        bytes[i] = digest[12 + i];
        i += 1;
    }
    proof {
        assert(bytes@ =~= digest@.subrange(12, 32));
    }
    Address::from_bytes(bytes)
}

/// Recovers the address that signed the hash.
pub fn recover_caller_address(hash: &[u8; 32], signature: &[u8; 65]) -> (r: Option<Address>)
    ensures
        r is Some <==> spec_caller_address(hash@, signature@) is Some,
        r is Some ==> r.unwrap()@ == spec_caller_address(hash@, signature@).unwrap(),
{
    let recovery_id: u8 = signature[64];
    let key = secp256k1_recover(hash, recovery_id, vstd::slice::slice_subrange(signature.as_slice(), 0, 64));
    match key {
        Some(key) => {
            let digest = keccak256(key.as_slice());
            Some(address_of_digest(&digest))
        },
        None => None,
    }
}

/// The address of the secret key: the last 20 bytes of the digest of its
/// public key without the format byte.
pub open spec fn spec_address_of_secret(secret: Seq<u8>) -> Option<Seq<u8>> {
    match secp256k1_public(secret) {
        Some(key) => Some(keccak256_digest(key.subrange(1, 65)).subrange(12, 32)),
        None => None,
    }
}

/// The address of a public key in its full form.
pub fn address_of_public_key(key: &[u8; 65]) -> (r: Address)
    ensures
        r@ == keccak256_digest(key@.subrange(1, 65)).subrange(12, 32),
{
    let digest = keccak256(vstd::slice::slice_subrange(key.as_slice(), 1, 65));
    address_of_digest(&digest)
}

/// The address that signs with the secret key, if the 32 bytes are one.
pub fn address_of_secret(secret: &[u8; 32]) -> (r: Option<Address>)
    ensures
        r is Some <==> spec_address_of_secret(secret@) is Some,
        r is Some ==> r.unwrap()@ == spec_address_of_secret(secret@).unwrap(),
{
    match secp256k1_public_key(secret) {
        Some(key) => Some(address_of_public_key(&key)),
        None => None,
    }
}

} // verus!
