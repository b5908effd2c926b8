use file_transfer::codec::{encode_frame, encode_header, Header, CHUNK_SIZE, MAX_NAME_LEN};
use file_transfer::errors::TransferError;
use file_transfer::receiver::{ReceiverSession, SessionState};

/// Plays one whole transfer against a receiver session, the way the
/// surrounding program would: the frame and the content form the byte
/// stream, the receiver takes the header, then the filename, then content
/// chunks until the stream ends. Returns what the receiver would have
/// written to its working file.
fn run_transfer(name: &[u8], content: &[u8]) -> Vec<u8> {
    let mut stream = encode_frame(&name.to_vec(), content.len() as u64);
    stream.extend_from_slice(content);

    let mut session = ReceiverSession::new();

    let header_bytes = stream[0..24].to_vec();
    let owed = session.header_received(&header_bytes).unwrap();
    assert_eq!(owed, name.len());

    let name_bytes = stream[24..24 + owed].to_vec();
    session.name_received(&name_bytes).unwrap();

    let mut written: Vec<u8> = Vec::new();
    let mut rest = &stream[24 + owed..];
    while !rest.is_empty() {
        let n = rest.len().min(CHUNK_SIZE);
        written.extend_from_slice(&rest[..n]);
        session.chunk_received(n);
        rest = &rest[n..];
    }
    session.end_of_stream();

    match session.state {
        SessionState::Complete { header, name: got_name, received } => {
            assert_eq!(header.name_len, name.len() as u64);
            assert_eq!(header.file_size, content.len() as u64);
            assert_eq!(header.reserved, 0);
            assert_eq!(got_name, name.to_vec());
            assert_eq!(received, content.len() as u64);
        }
        other => panic!("transfer did not complete: {:?}", other),
    }
    written
}

fn patterned(len: usize) -> Vec<u8> {
    (0..len).map(|i| (i % 251) as u8).collect()
}

#[test]
fn round_trip_empty_file() {
    assert_eq!(run_transfer(b"empty.bin", &[]), Vec::<u8>::new());
}

#[test]
fn round_trip_one_byte() {
    assert_eq!(run_transfer(b"one", &[0xAB]), vec![0xAB]);
}

#[test]
fn round_trip_just_below_chunk_size() {
    let content = patterned(65535);
    assert_eq!(run_transfer(b"below.dat", &content), content);
}

#[test]
fn round_trip_exactly_chunk_size() {
    let content = patterned(65536);
    assert_eq!(run_transfer(b"exact.dat", &content), content);
}

#[test]
fn round_trip_just_above_chunk_size() {
    let content = patterned(65537);
    assert_eq!(run_transfer(b"above.dat", &content), content);
}

#[test]
fn round_trip_ten_mebibytes() {
    let content = patterned(10 * 1024 * 1024);
    assert_eq!(run_transfer(b"big.bin", &content), content);
}

#[test]
fn round_trip_empty_name() {
    assert_eq!(run_transfer(b"", b"payload"), b"payload".to_vec());
}

#[test]
fn truncated_header_fails_session() {
    let mut session = ReceiverSession::new();
    let r = session.header_received(&vec![0u8; 10]);
    assert_eq!(r, Err(TransferError::ProtocolError));
    assert!(matches!(session.state, SessionState::Failed));
}

#[test]
fn empty_stream_fails_session() {
    let mut session = ReceiverSession::new();
    let r = session.header_received(&Vec::new());
    assert_eq!(r, Err(TransferError::ProtocolError));
    assert!(matches!(session.state, SessionState::Failed));
}

#[test]
fn oversized_name_length_fails_session() {
    let h = Header { name_len: MAX_NAME_LEN + 1, file_size: 0, reserved: 0 };
    let bytes = encode_header(&h);
    let mut session = ReceiverSession::new();
    let r = session.header_received(&bytes);
    assert_eq!(r, Err(TransferError::ProtocolError));
    assert!(matches!(session.state, SessionState::Failed));
}

#[test]
fn incomplete_filename_fails_session() {
    let h = Header { name_len: 5, file_size: 9, reserved: 0 };
    let bytes = encode_header(&h);
    let mut session = ReceiverSession::new();
    assert_eq!(session.header_received(&bytes), Ok(5));
    let r = session.name_received(&b"abc".to_vec());
    assert_eq!(r, Err(TransferError::ProtocolError));
    assert!(matches!(session.state, SessionState::Failed));
}

#[test]
fn received_counter_accumulates() {
    let h = Header { name_len: 1, file_size: 0, reserved: 0 };
    let bytes = encode_header(&h);
    let mut session = ReceiverSession::new();
    session.header_received(&bytes).unwrap();
    session.name_received(&b"f".to_vec()).unwrap();
    session.chunk_received(100);
    session.chunk_received(28);
    session.end_of_stream();
    match session.state {
        SessionState::Complete { received, .. } => assert_eq!(received, 128),
        other => panic!("unexpected state: {:?}", other),
    }
}
