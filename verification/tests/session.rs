use evm_loader::error::Error;
use evm_loader::session::{Session, Status, SESSION_HEADER_SIZE, SESSION_VERSION};
use evm_loader::types::Address;
use evm_loader::u256::U256;

fn sample() -> Session {
    let mut signature = [0u8; 65];
    for (i, byte) in signature.iter_mut().enumerate() {
        *byte = i as u8;
    }
    Session {
        status: Status::Active,
        signature,
        caller: Address::from_bytes([0xab; 20]),
        gas_limit: U256::from_words(1, 2),
        gas_price: U256::from_u64(3),
        gas_used: U256::from_words(4, 5),
        steps_executed: 0x0102,
        snapshot: vec![9, 8, 7, 6],
    }
}

#[test]
fn the_layout_is_tag_status_signature_caller_gas_snapshot() {
    let packed = sample().pack();
    assert_eq!(packed.len(), SESSION_HEADER_SIZE + 4);
    assert_eq!(packed[0], SESSION_VERSION);
    assert_eq!(packed[1], 1);
    assert_eq!(packed[2], 0);
    assert_eq!(packed[66], 64);
    assert_eq!(&packed[67..87], &[0xab; 20]);
    assert_eq!(packed[87], 2);
    assert_eq!(packed[87 + 16], 1);
    assert_eq!(packed[119], 3);
    assert_eq!(packed[151], 5);
    assert_eq!(packed[151 + 16], 4);
    assert_eq!(&packed[183..191], &[2, 1, 0, 0, 0, 0, 0, 0]);
    assert_eq!(&packed[191..], &[9, 8, 7, 6]);
}

#[test]
fn a_packed_session_unpacks_to_itself() {
    let session = sample();
    let back = Session::unpack(&session.pack()).unwrap();
    assert_eq!(back.status, Status::Active);
    assert_eq!(back.signature, session.signature);
    assert_eq!(back.caller, session.caller);
    assert_eq!(back.gas_limit, session.gas_limit);
    assert_eq!(back.gas_price, session.gas_price);
    assert_eq!(back.gas_used, session.gas_used);
    assert_eq!(back.steps_executed, 0x0102);
    assert_eq!(back.snapshot, session.snapshot);
    assert_eq!(back.pack(), session.pack());
}

#[test]
fn every_status_round_trips() {
    for status in [Status::Empty, Status::Active, Status::Finalized] {
        let mut session = sample();
        session.status = status;
        assert_eq!(Session::unpack(&session.pack()).unwrap().status, status);
    }
    let empty = Session::new();
    assert_eq!(empty.status, Status::Empty);
    assert_eq!(Session::unpack(&empty.pack()).unwrap().snapshot, Vec::<u8>::new());
}

#[test]
fn unpack_rejects_short_untagged_and_unknown_status() {
    let packed = sample().pack();
    assert_eq!(Session::unpack(&packed[..190]).unwrap_err(), Error::InvalidLength);
    assert_eq!(Session::unpack(&[]).unwrap_err(), Error::InvalidLength);
    let mut untagged = packed.clone();
    untagged[0] = 2;
    assert_eq!(Session::unpack(&untagged).unwrap_err(), Error::InvalidTag);
    let mut unknown = packed.clone();
    unknown[1] = 3;
    assert_eq!(Session::unpack(&unknown).unwrap_err(), Error::InvalidStatus);
    assert!(Session::unpack(&packed[..191]).is_ok());
}

#[test]
fn u256_bytes_are_little_endian() {
    let value = U256::from_words(0x0102, 0x0304);
    let bytes = value.to_le_bytes();
    assert_eq!(bytes.len(), 32);
    assert_eq!(bytes[0], 4);
    assert_eq!(bytes[1], 3);
    assert_eq!(bytes[16], 2);
    assert_eq!(bytes[17], 1);
    assert_eq!(U256::from_le_bytes(&bytes), value);
}

#[test]
fn an_untouched_record_holds_the_empty_session() {
    let session = Session::load(&[0u8; 300]).unwrap();
    assert_eq!(session.status, Status::Empty);
    assert_eq!(session.gas_used, U256::zero());
    assert_eq!(session.snapshot, Vec::<u8>::new());
    assert_eq!(Session::load(&[]).unwrap().status, Status::Empty);
    let packed = sample().pack();
    assert_eq!(Session::load(&packed).unwrap().snapshot, vec![9, 8, 7, 6]);
    let mut short = vec![0u8; 10];
    short[3] = 1;
    assert_eq!(Session::load(&short).unwrap_err(), Error::InvalidLength);
    let mut untagged = vec![0u8; 200];
    untagged[5] = 1;
    assert_eq!(Session::load(&untagged).unwrap_err(), Error::InvalidTag);
}
