use file_transfer::codec::u64_from_be_bytes;
use file_transfer::codec::u64_to_be_bytes;
use file_transfer::session::ack_bytes;
use file_transfer::session::run_receive;
use file_transfer::session::ReadOutcome;
use file_transfer::session::TransferError;
use file_transfer::session::TransferSession;
use file_transfer::shared::chunk_from_slice;
use file_transfer::shared::destination_name;
use file_transfer::shared::parse_filename;
use file_transfer::shared::valid_prefix;
use file_transfer::shared::writer_output;
use file_transfer::shared::FileData;
use file_transfer::shared::WriterStatus;
use file_transfer::shared::BUFFER_SIZE;

#[test]
fn receive_delivers_declared_payload() {
    // The payload of `send 127.0.0.1:9000 report.txt`: "hello world", 11 bytes.
    let got = run_receive(b"hello world", 11);
    assert_eq!(got, Ok(b"hello world".to_vec()));
}

#[test]
fn receive_of_empty_declaration_makes_empty_file() {
    assert_eq!(run_receive(b"", 0), Ok(Vec::new()));
    assert_eq!(run_receive(b"trailing", 0), Ok(Vec::new()));
}

#[test]
fn receive_consumes_no_more_than_declared() {
    let got = run_receive(b"hello world and then some", 11);
    assert_eq!(got, Ok(b"hello world".to_vec()));
}

#[test]
fn receive_spanning_several_chunks() {
    let mut input = Vec::new();
    for i in 0..(2 * BUFFER_SIZE + 77) {
        input.push((i % 251) as u8);
    }
    let got = run_receive(&input, input.len() as u64);
    assert_eq!(got, Ok(input));
}

#[test]
fn early_disconnect_is_a_failure() {
    // The peer closed after 3 of 11 declared bytes: no silent truncation.
    let got = run_receive(b"hel", 11);
    assert_eq!(got, Err(TransferError::EarlyDisconnect));
}

#[test]
fn distinct_transfers_stay_separate() {
    // Two uploads on distinct filenames: each destination holds its own
    // complete payload, nothing interleaved.
    let a = run_receive(b"first file body", 15);
    let b = run_receive(b"second one", 10);
    assert_eq!(a, Ok(b"first file body".to_vec()));
    assert_eq!(b, Ok(b"second one".to_vec()));
}

#[test]
fn round_trip_through_size_field() {
    // Upload stores the bytes; the stored size travels through the 8-byte
    // field; the download of the stored file returns the bytes unchanged.
    let content = b"The quick brown fox jumps over the lazy dog.".to_vec();
    let stored = run_receive(&content, content.len() as u64).unwrap();
    assert_eq!(stored, content);
    let wire_size = u64_to_be_bytes(stored.len() as u64);
    let redeclared = u64_from_be_bytes(&wire_size);
    let fetched = run_receive(&stored, redeclared).unwrap();
    assert_eq!(fetched, content);
}

#[test]
fn session_reads_are_capped() {
    let s = TransferSession::new(5);
    assert_eq!(s.next_read_len(), 5);
    let big = TransferSession::new(1_000_000);
    assert_eq!(big.next_read_len(), BUFFER_SIZE);
}

#[test]
fn session_counts_down_to_completion() {
    let mut s = TransferSession::new(10);
    assert!(!s.is_complete());
    assert_eq!(s.on_read(4), ReadOutcome::Advanced);
    assert_eq!(s.on_read(6), ReadOutcome::Advanced);
    assert!(s.is_complete());
}

#[test]
fn zero_byte_read_classifies_as_early_close() {
    let mut s = TransferSession::new(10);
    assert_eq!(s.on_read(0), ReadOutcome::EarlyClose);
}

#[test]
fn acknowledgment_only_after_completed_writer() {
    let mut s = TransferSession::new(4);
    // Incomplete transfer: no acknowledgment, whatever the writer says.
    assert_eq!(ack_bytes(&s, WriterStatus::Completed), None);
    s.on_read(4);
    // Complete transfer but a failed or crashed writer: still none.
    assert_eq!(ack_bytes(&s, WriterStatus::IoFailed), None);
    assert_eq!(ack_bytes(&s, WriterStatus::Panicked), None);
    // Complete and durably written: the 2-byte "OK".
    assert_eq!(ack_bytes(&s, WriterStatus::Completed), Some(b"OK".to_vec()));
}

#[test]
fn chunk_carries_exactly_its_valid_prefix() {
    let fd = chunk_from_slice(b"abcde");
    assert_eq!(fd.actual_buffer_size, 5);
    assert_eq!(valid_prefix(&fd), b"abcde");
    let manual = FileData {
        data: [7u8; BUFFER_SIZE],
        actual_buffer_size: 3,
    };
    assert_eq!(valid_prefix(&manual), &[7, 7, 7]);
}

#[test]
fn writer_concatenates_chunks_in_arrival_order() {
    let chunks = vec![
        chunk_from_slice(b"abc"),
        chunk_from_slice(b""),
        chunk_from_slice(b"de"),
    ];
    assert_eq!(writer_output(&chunks), b"abcde".to_vec());
}

#[test]
fn filenames_decode_lossily() {
    assert_eq!(parse_filename(b"report.txt"), "report.txt");
    // An invalid UTF-8 sequence is replaced, never rejected.
    assert_eq!(parse_filename(&[0xff, b'a']), "\u{FFFD}a");
}

#[test]
fn destination_names_are_prefixed_verbatim() {
    assert_eq!(
        destination_name("received_", "report.txt"),
        "received_report.txt"
    );
    assert_eq!(
        destination_name("downloaded_", "../evil"),
        "downloaded_../evil"
    );
}
