use evm_loader::deploy::{deploy_payload, make_deploy_ethereum_transaction, DEPLOY_GAS_LIMIT};
use evm_loader::signature::{address_of_public_key, address_of_secret, recover_caller_address};
use evm_loader::types::Address;

fn reference_payload(nonce: u64, data: &[u8], chain_id: u64) -> Vec<u8> {
    let mut stream = rlp::RlpStream::new_list(9);
    stream.append(&nonce);
    stream.append(&0_u64);
    stream.append(&999_999_999_999_u64);
    stream.append_empty_data();
    stream.append(&0_u64);
    stream.append(&data.to_vec());
    stream.append(&chain_id);
    stream.append_empty_data();
    stream.append_empty_data();
    stream.out().to_vec()
}

#[test]
fn the_payload_is_the_encoded_list_of_the_nine_items() {
    let payload = deploy_payload(0, &[], 1);
    assert_eq!(
        payload,
        vec![0xce, 0x80, 0x80, 0x85, 0xe8, 0xd4, 0xa5, 0x0f, 0xff, 0x80, 0x80, 0x80, 0x01, 0x80, 0x80]
    );
    let payload = deploy_payload(1024, &[0x60, 0x80], 0x0102);
    assert_eq!(
        payload,
        vec![
            0xd4, 0x82, 0x04, 0x00, 0x80, 0x85, 0xe8, 0xd4, 0xa5, 0x0f, 0xff, 0x80, 0x80, 0x82, 0x60,
            0x80, 0x82, 0x01, 0x02, 0x80, 0x80
        ]
    );
    let long = deploy_payload(7, &[0xfe; 300], 5);
    assert_eq!(&long[..3], &[0xf9, 0x01, 0x3c]);
    assert_eq!(DEPLOY_GAS_LIMIT, 999_999_999_999);
}

#[test]
fn the_deploy_payload_is_the_unsigned_transaction() {
    for (nonce, data, chain) in [
        (0u64, vec![], 1u64),
        (7, vec![0x60, 0x80, 0x60, 0x40], 245_022_926),
        (u64::MAX, vec![0xfe; 300], u64::MAX),
    ] {
        assert_eq!(deploy_payload(nonce, &data, chain), reference_payload(nonce, &data, chain));
    }
}

#[test]
fn the_deploy_message_is_signed_by_the_caller() {
    let secret = [0x42u8; 32];
    let data = vec![0x60u8, 0x80, 0x60, 0x40, 0x52];
    let message = make_deploy_ethereum_transaction(3, &data, &secret, 111).unwrap();
    let payload = reference_payload(3, &data, 111);
    assert_eq!(message.len(), payload.len() + 73);
    assert_eq!(&message[65..73], &(payload.len() as u64).to_le_bytes());
    assert_eq!(&message[73..], &payload[..]);
    let mut signature = [0u8; 65];
    signature.copy_from_slice(&message[..65]);
    let hash = solana_program::keccak::hash(&payload).to_bytes();
    assert_eq!(recover_caller_address(&hash, &signature), address_of_secret(&secret));
    assert!(address_of_secret(&secret).is_some());
    assert_eq!(make_deploy_ethereum_transaction(3, &data, &secret, 111).unwrap(), message);
}

#[test]
fn bytes_that_are_no_secret_key_sign_nothing() {
    assert_eq!(make_deploy_ethereum_transaction(0, &[], &[0u8; 32], 1), None);
    assert_eq!(make_deploy_ethereum_transaction(0, &[], &[0xffu8; 32], 1), None);
    assert_eq!(address_of_secret(&[0u8; 32]), None);
    assert_eq!(address_of_secret(&[0xffu8; 32]), None);
}

#[test]
fn the_address_of_a_key_is_the_end_of_its_digest() {
    let secret = libsecp256k1::SecretKey::parse(&[1u8; 32]).unwrap();
    let key = libsecp256k1::PublicKey::from_secret_key(&secret).serialize();
    let digest = solana_program::keccak::hash(&key[1..]).to_bytes();
    let mut expected = [0u8; 20];
    expected.copy_from_slice(&digest[12..]);
    assert_eq!(address_of_public_key(&key), Address::from_bytes(expected));
    assert_eq!(address_of_secret(&[1u8; 32]), Some(Address::from_bytes(expected)));
    assert_ne!(&key[1..21], &expected);
}
