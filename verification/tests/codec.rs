use file_transfer::codec::build_download_request;
use file_transfer::codec::build_get_response_header;
use file_transfer::codec::build_upload_request;
use file_transfer::codec::encode_command;
use file_transfer::codec::encode_filename_frame;
use file_transfer::codec::encode_status;
use file_transfer::codec::parse_command;
use file_transfer::codec::parse_status_prefix;
use file_transfer::codec::u32_from_be_bytes;
use file_transfer::codec::u32_to_be_bytes;
use file_transfer::codec::u64_from_be_bytes;
use file_transfer::codec::u64_to_be_bytes;
use file_transfer::codec::Command;
use file_transfer::codec::GetStatus;
use file_transfer::codec::StatusParse;

#[test]
fn command_tags_are_four_ascii_bytes() {
    assert_eq!(encode_command(Command::Upload), b"SEND".to_vec());
    assert_eq!(encode_command(Command::Download), b"GET ".to_vec());
}

#[test]
fn known_commands_parse_back() {
    assert_eq!(parse_command(b"SEND"), Some(Command::Upload));
    assert_eq!(parse_command(b"GET "), Some(Command::Download));
}

#[test]
fn unknown_commands_are_rejected() {
    assert_eq!(parse_command(b"LIST"), None);
    assert_eq!(parse_command(b"GET\0"), None);
    assert_eq!(parse_command(b"send"), None);
}

#[test]
fn u32_big_endian_exact_bytes() {
    assert_eq!(u32_to_be_bytes(0x01020304), vec![1, 2, 3, 4]);
    assert_eq!(u32_to_be_bytes(10), vec![0, 0, 0, 10]);
    assert_eq!(u32_from_be_bytes(&[1, 2, 3, 4]), 0x01020304);
    assert_eq!(u32_from_be_bytes(&[0xff, 0xff, 0xff, 0xff]), u32::MAX);
}

#[test]
fn u64_big_endian_exact_bytes() {
    assert_eq!(u64_to_be_bytes(11), vec![0, 0, 0, 0, 0, 0, 0, 11]);
    assert_eq!(
        u64_to_be_bytes(0x0102030405060708),
        vec![1, 2, 3, 4, 5, 6, 7, 8]
    );
    assert_eq!(u64_from_be_bytes(&[0, 0, 0, 0, 0, 0, 0, 11]), 11);
    assert_eq!(u64_from_be_bytes(&[0xff; 8]), u64::MAX);
}

#[test]
fn u64_big_endian_round_trips() {
    for x in [0u64, 1, 255, 256, 8192, u64::MAX, u64::MAX - 1] {
        assert_eq!(u64_from_be_bytes(&u64_to_be_bytes(x)), x);
    }
}

#[test]
fn status_tags_are_literal() {
    assert_eq!(encode_status(GetStatus::Found), b"OK".to_vec());
    assert_eq!(encode_status(GetStatus::Missing), b"ERR".to_vec());
}

#[test]
fn status_prefix_classifies() {
    assert_eq!(parse_status_prefix(b'O', b'K'), StatusParse::Succeeded);
    assert_eq!(parse_status_prefix(b'E', b'R'), StatusParse::Failed);
    assert_eq!(parse_status_prefix(b'N', b'O'), StatusParse::Malformed);
}

#[test]
fn filename_frame_is_length_prefixed() {
    let frame = encode_filename_frame(b"report.txt");
    assert_eq!(&frame[..4], &[0, 0, 0, 10]);
    assert_eq!(&frame[4..], b"report.txt");
}

#[test]
fn upload_request_exact_layout() {
    // The header of `send 127.0.0.1:9000 report.txt` for an 11-byte file.
    let r = build_upload_request(b"report.txt", 11);
    let mut expected = b"SEND".to_vec();
    expected.extend_from_slice(&[0, 0, 0, 10]);
    expected.extend_from_slice(b"report.txt");
    expected.extend_from_slice(&[0, 0, 0, 0, 0, 0, 0, 11]);
    assert_eq!(r, expected);
}

#[test]
fn download_request_exact_layout() {
    let r = build_download_request(b"a.txt");
    let mut expected = b"GET ".to_vec();
    expected.extend_from_slice(&[0, 0, 0, 5]);
    expected.extend_from_slice(b"a.txt");
    assert_eq!(r, expected);
}

#[test]
fn get_response_header_for_found_file() {
    let r = build_get_response_header(true, 11);
    let mut expected = b"OK".to_vec();
    expected.extend_from_slice(&[0, 0, 0, 0, 0, 0, 0, 11]);
    assert_eq!(r, expected);
}

#[test]
fn get_response_header_for_missing_file() {
    // A download of a nonexistent filename is answered with "ERR" alone.
    assert_eq!(build_get_response_header(false, 0), b"ERR".to_vec());
    assert_eq!(build_get_response_header(false, 99), b"ERR".to_vec());
}
