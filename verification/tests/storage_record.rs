use evm_loader::account::ether_storage::{Data, EthereumStorage, TAG_CONTRACT_STORAGE};
use evm_loader::error::Error;
use evm_loader::rent::Rent;

#[test]
fn a_new_record_reads_zero_everywhere() {
    let record = EthereumStorage::new();
    assert_eq!(record.data, vec![TAG_CONTRACT_STORAGE]);
    assert_eq!(record.get(0), [0u8; 32]);
    assert_eq!(record.get(255), [0u8; 32]);
}

#[test]
fn set_appends_a_chunk_and_get_finds_it() {
    let rent = Rent::with_lamports_per_byte(10);
    let mut record = EthereumStorage::new();
    let top_up = record.set(7, &[9u8; 32], &rent, 0);
    assert_eq!(record.data.len(), 34);
    assert_eq!(record.data[1], 7);
    assert_eq!(top_up, (128 + 34) * 10);
    assert_eq!(record.get(7), [9u8; 32]);
    assert_eq!(record.get(8), [0u8; 32]);
}

#[test]
fn set_overwrites_in_place_without_growth() {
    let rent = Rent::with_lamports_per_byte(10);
    let mut record = EthereumStorage::new();
    record.set(7, &[9u8; 32], &rent, 0);
    record.set(8, &[1u8; 32], &rent, 0);
    let top_up = record.set(7, &[5u8; 32], &rent, 0);
    assert_eq!(top_up, 0);
    assert_eq!(record.data.len(), 67);
    assert_eq!(record.get(7), [5u8; 32]);
    assert_eq!(record.get(8), [1u8; 32]);
}

#[test]
fn the_top_up_is_what_the_balance_lacks() {
    let rent = Rent::with_lamports_per_byte(10);
    let mut record = EthereumStorage::new();
    assert_eq!(record.set(1, &[1u8; 32], &rent, 1000), 620);
    assert_eq!(record.set(2, &[1u8; 32], &rent, 1_000_000), 0);
}

#[test]
fn the_first_chunk_with_a_subindex_counts() {
    let mut data = vec![TAG_CONTRACT_STORAGE];
    data.push(3);
    data.extend([1u8; 32]);
    data.push(3);
    data.extend([2u8; 32]);
    let record = EthereumStorage::from_bytes(data).unwrap();
    assert_eq!(record.get(3), [1u8; 32]);
}

#[test]
fn from_bytes_wants_the_tag() {
    assert_eq!(EthereumStorage::from_bytes(vec![]).unwrap_err(), Error::InvalidTag);
    assert_eq!(EthereumStorage::from_bytes(vec![5]).unwrap_err(), Error::InvalidTag);
    assert!(EthereumStorage::from_bytes(vec![TAG_CONTRACT_STORAGE, 1, 2]).is_ok());
    assert!(EthereumStorage::from_bytes(vec![TAG_CONTRACT_STORAGE]).is_ok());
}

#[test]
fn a_chunk_that_is_cut_short_is_not_read() {
    let mut data = vec![TAG_CONTRACT_STORAGE, 9];
    data.extend([0x01u8; 31]);
    let record = EthereumStorage::from_bytes(data).unwrap();
    assert_eq!(record.get(9), [0u8; 32]);
    assert_eq!(record.get(1), [0u8; 32]);
    let tag_only = EthereumStorage::from_bytes(vec![TAG_CONTRACT_STORAGE]).unwrap();
    assert_eq!(tag_only.get(9), [0u8; 32]);
}

#[test]
fn an_overwrite_changes_the_32_bytes_of_the_value_and_no_other() {
    let rent = Rent::with_lamports_per_byte(10);
    let mut data = vec![TAG_CONTRACT_STORAGE, 3];
    data.extend([0x11u8; 32]);
    data.push(7);
    data.extend([0x22u8; 32]);
    let mut record = EthereumStorage::from_bytes(data).unwrap();
    assert_eq!(record.set(7, &[0xaa; 32], &rent, 0), 0);
    let mut expected = vec![TAG_CONTRACT_STORAGE, 3];
    expected.extend([0x11u8; 32]);
    expected.push(7);
    expected.extend([0xaau8; 32]);
    assert_eq!(record.data, expected);
    assert_eq!(record.data.len(), 67);
    assert_eq!(record.get(7), [0xaa; 32]);
    assert_eq!(record.get(3), [0x11; 32]);
}

#[test]
fn an_overwrite_goes_to_the_first_chunk_with_the_subindex() {
    let rent = Rent::with_lamports_per_byte(10);
    let mut data = vec![TAG_CONTRACT_STORAGE, 7];
    data.extend([0x11u8; 32]);
    data.push(7);
    data.extend([0x22u8; 32]);
    data.extend([0x33u8; 5]);
    let mut record = EthereumStorage::from_bytes(data).unwrap();
    assert_eq!(record.set(7, &[0xaa; 32], &rent, 0), 0);
    assert_eq!(&record.data[2..34], &[0xaa; 32]);
    assert_eq!(record.data[34], 7);
    assert_eq!(&record.data[35..67], &[0x22; 32]);
    assert_eq!(&record.data[67..], &[0x33; 5]);
}

#[test]
fn the_header_takes_no_bytes() {
    let header = Data::unpack(&[1, 2, 3]);
    let mut out = vec![4u8, 5];
    header.pack(&mut out);
    assert_eq!(out, vec![4u8, 5]);
    assert_eq!(header, Data::default());
}
