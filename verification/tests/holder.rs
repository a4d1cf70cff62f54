use evm_loader::holder::{frame_transaction, holder_writes, DATA_CHUNK_SIZE};

#[test]
fn the_frame_is_signature_recovery_id_length_and_payload() {
    let frame = frame_transaction(&[7u8; 64], 1, &[0xaa, 0xbb, 0xcc]);
    assert_eq!(frame.len(), 3 + 73);
    assert_eq!(&frame[..64], &[7u8; 64]);
    assert_eq!(frame[64], 1);
    assert_eq!(&frame[65..73], &[3, 0, 0, 0, 0, 0, 0, 0]);
    assert_eq!(&frame[73..], &[0xaa, 0xbb, 0xcc]);
    let empty = frame_transaction(&[0u8; 64], 0, &[]);
    assert_eq!(empty.len(), 73);
    let long = frame_transaction(&[0u8; 64], 0, &[0u8; 258]);
    assert_eq!(&long[65..73], &[2, 1, 0, 0, 0, 0, 0, 0]);
}

#[test]
fn a_message_is_cut_into_chunks_at_their_offsets() {
    let msg: Vec<u8> = (0..500u32).map(|i| (i % 251) as u8).collect();
    let writes = holder_writes(&msg);
    assert_eq!(writes.len(), 3);
    assert_eq!(writes[0].offset, 0);
    assert_eq!(writes[1].offset, 229);
    assert_eq!(writes[2].offset, 458);
    assert_eq!(writes[0].bytes.len(), DATA_CHUNK_SIZE);
    assert_eq!(writes[1].bytes.len(), 229);
    assert_eq!(writes[2].bytes.len(), 42);
    let mut joined: Vec<u8> = vec![];
    for write in &writes {
        joined.extend(&write.bytes);
    }
    assert_eq!(joined, msg);
}

#[test]
fn whole_chunks_leave_no_short_one_and_nothing_needs_no_write() {
    assert_eq!(holder_writes(&[]).len(), 0);
    assert_eq!(holder_writes(&[1u8; 229]).len(), 1);
    assert_eq!(holder_writes(&[1u8; 230]).len(), 2);
    assert_eq!(holder_writes(&[1u8; 230])[1].bytes, vec![1u8]);
    assert_eq!(holder_writes(&[1u8; 458]).len(), 2);
}
