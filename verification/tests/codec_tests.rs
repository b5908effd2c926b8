use file_transfer::codec::{decode_header, encode_frame, encode_header, Header, HEADER_SIZE};
use file_transfer::errors::TransferError;

#[test]
fn header_round_trip_basic() {
    let h = Header { name_len: 5, file_size: 12345, reserved: 0 };
    let bytes = encode_header(&h);
    assert_eq!(bytes.len(), HEADER_SIZE);
    assert_eq!(decode_header(&bytes), Ok(h));
}

#[test]
fn header_round_trip_empty_name_and_zero_size() {
    let h = Header { name_len: 0, file_size: 0, reserved: 0 };
    let bytes = encode_header(&h);
    assert_eq!(decode_header(&bytes), Ok(h));
}

#[test]
fn header_round_trip_extreme_values() {
    let h = Header { name_len: u64::MAX, file_size: u64::MAX - 1, reserved: 7 };
    let bytes = encode_header(&h);
    assert_eq!(decode_header(&bytes), Ok(h));
}

#[test]
fn encode_header_exact_bytes() {
    let h = Header { name_len: 1, file_size: 2, reserved: 0 };
    let bytes = encode_header(&h);
    let expected: Vec<u8> = vec![
        0, 0, 0, 0, 0, 0, 0, 1, // filename length, big-endian
        0, 0, 0, 0, 0, 0, 0, 2, // file size, big-endian
        0, 0, 0, 0, 0, 0, 0, 0, // reserved
    ];
    assert_eq!(bytes, expected);
}

#[test]
fn encode_header_big_endian_order() {
    let h = Header { name_len: 0x0102030405060708, file_size: 0xEDCB000000000000, reserved: 0 };
    let bytes = encode_header(&h);
    assert_eq!(&bytes[0..8], &[1, 2, 3, 4, 5, 6, 7, 8]);
    assert_eq!(&bytes[8..10], &[0xED, 0xCB]);
}

#[test]
fn decode_header_concrete_bytes() {
    let mut bytes = vec![0u8; 24];
    bytes[7] = 3; // filename length 3
    bytes[14] = 1; // file size 256
    bytes[15] = 0;
    let h = decode_header(&bytes).unwrap();
    assert_eq!(h.name_len, 3);
    assert_eq!(h.file_size, 256);
    assert_eq!(h.reserved, 0);
}

#[test]
fn decode_header_truncated_is_protocol_error() {
    for len in [0usize, 1, 8, 16, 23] {
        let bytes = vec![0u8; len];
        assert_eq!(decode_header(&bytes), Err(TransferError::ProtocolError));
    }
}

#[test]
fn frame_is_header_then_name() {
    let name = b"abc".to_vec();
    let frame = encode_frame(&name, 10);
    assert_eq!(frame.len(), HEADER_SIZE + 3);
    assert_eq!(&frame[0..8], &[0, 0, 0, 0, 0, 0, 0, 3]);
    assert_eq!(&frame[8..16], &[0, 0, 0, 0, 0, 0, 0, 10]);
    assert_eq!(&frame[16..24], &[0u8; 8]);
    assert_eq!(&frame[24..], b"abc");
}

#[test]
fn frame_with_empty_name() {
    let name: Vec<u8> = Vec::new();
    let frame = encode_frame(&name, 0);
    assert_eq!(frame, vec![0u8; 24]);
}
