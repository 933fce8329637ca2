use pgcat::{decimal_bytes, parse_query, simple_query, Error};
use pgcat::{command_complete, data_row, error_response, ready_for_query, row_description};
use pgcat::{DataType, TransactionStatus};

/// Builds a Simple Query frame: tag 'Q', big-endian length covering the
/// length field itself, the query text and the trailing NUL, the text,
/// and the NUL.
fn query_frame(text: &[u8]) -> Vec<u8> {
    let len = (4 + text.len() + 1) as u32;
    let mut f = vec![b'Q'];
    f.extend_from_slice(&len.to_be_bytes());
    f.extend_from_slice(text);
    f.push(0);
    f
}

#[test]
fn parse_query_roundtrip() {
    let frame = query_frame(b"SHOW STATS");
    assert_eq!(parse_query(&frame), Ok(b"SHOW STATS".to_vec()));
}

#[test]
fn parse_query_empty_buffer() {
    assert_eq!(parse_query(&vec![]), Err(Error::QueryDecodeError));
}

#[test]
fn parse_query_wrong_tag_is_protocol_sync_error() {
    let mut frame = query_frame(b"SHOW STATS");
    frame[0] = b'X';
    assert_eq!(parse_query(&frame), Err(Error::ProtocolSyncError));
}

#[test]
fn parse_query_header_too_short() {
    assert_eq!(parse_query(&vec![b'Q', 0, 0]), Err(Error::QueryDecodeError));
}

#[test]
fn parse_query_declared_length_below_overhead() {
    // Declared length 4 is below the minimum frame overhead of 5.
    assert_eq!(
        parse_query(&vec![b'Q', 0, 0, 0, 4, 0]),
        Err(Error::QueryDecodeError)
    );
}

#[test]
fn parse_query_truncated_buffer() {
    // Declares 20 bytes of frame but carries fewer.
    assert_eq!(
        parse_query(&vec![b'Q', 0, 0, 0, 20, b'S', b'E', 0]),
        Err(Error::QueryDecodeError)
    );
}

#[test]
fn parse_query_invalid_utf8() {
    let frame = query_frame(&[0xff, 0xfe]);
    assert_eq!(parse_query(&frame), Err(Error::QueryDecodeError));
}

#[test]
fn parse_query_accepts_multibyte_text() {
    let frame = query_frame("SELECT 'héllo'".as_bytes());
    assert_eq!(parse_query(&frame), Ok("SELECT 'héllo'".as_bytes().to_vec()));
}

#[test]
fn parse_query_accepts_four_byte_scalar() {
    let frame = query_frame(&[0xf0, 0x9f, 0x98, 0x80]);
    assert_eq!(parse_query(&frame), Ok(vec![0xf0, 0x9f, 0x98, 0x80]));
}

#[test]
fn parse_query_rejects_overlong_encoding() {
    let frame = query_frame(&[0xc0, 0x80]);
    assert_eq!(parse_query(&frame), Err(Error::QueryDecodeError));
}

#[test]
fn parse_query_rejects_surrogate_encoding() {
    let frame = query_frame(&[0xed, 0xa0, 0x80]);
    assert_eq!(parse_query(&frame), Err(Error::QueryDecodeError));
}

#[test]
fn parse_query_rejects_stray_continuation_byte() {
    let frame = query_frame(&[0x80]);
    assert_eq!(parse_query(&frame), Err(Error::QueryDecodeError));
}

#[test]
fn ready_for_query_idle_bytes() {
    assert_eq!(
        ready_for_query(TransactionStatus::Idle),
        vec![b'Z', 0, 0, 0, 5, b'I']
    );
}

#[test]
fn ready_for_query_status_bytes() {
    assert_eq!(ready_for_query(TransactionStatus::InTransaction)[5], b'T');
    assert_eq!(ready_for_query(TransactionStatus::Failed)[5], b'E');
}

#[test]
fn command_complete_bytes() {
    assert_eq!(
        command_complete("SHOW"),
        vec![b'C', 0, 0, 0, 9, b'S', b'H', b'O', b'W', 0]
    );
}

#[test]
fn data_row_bytes() {
    let row = data_row(&vec![b"ab".to_vec()]);
    assert_eq!(
        row,
        vec![b'D', 0, 0, 0, 12, 0, 1, 0, 0, 0, 2, b'a', b'b']
    );
}

#[test]
fn data_row_empty_cell() {
    let row = data_row(&vec![vec![], b"x".to_vec()]);
    assert_eq!(
        row,
        vec![b'D', 0, 0, 0, 15, 0, 2, 0, 0, 0, 0, 0, 0, 0, 1, b'x']
    );
}

#[test]
fn row_description_bytes() {
    let cols = vec![("key", DataType::Text)];
    let msg = row_description(&cols);
    let expected = vec![
        b'T', 0, 0, 0, 28, // tag, length
        0, 1, // one column
        b'k', b'e', b'y', 0, // name
        0, 0, 0, 0, // no originating table
        0, 0, // no attribute number
        0, 0, 0, 25, // text type identifier
        255, 255, // variable width (-1)
        255, 255, 255, 255, // default type modifier (-1)
        0, 0, // text format
    ];
    assert_eq!(msg, expected);
}

#[test]
fn row_description_type_identifiers() {
    let cols = vec![("a", DataType::Int4), ("b", DataType::Numeric)];
    let msg = row_description(&cols);
    // First column: name "a\0" at offset 7, type identifier 4 bytes after
    // the 4-byte table and 2-byte attribute fields.
    assert_eq!(&msg[7 + 2 + 6..7 + 2 + 10], &[0, 0, 0, 23]);
    assert_eq!(&msg[7 + 2 + 10..7 + 2 + 12], &[0, 4]);
    // Second column starts after the first's 20 bytes ("a" is one byte).
    let second = 7 + 2 + 18;
    assert_eq!(&msg[second + 2 + 6..second + 2 + 10], &[0, 0, 6, 164]); // 1700
}

#[test]
fn error_response_bytes() {
    let msg = error_response("x");
    let expected = vec![
        b'E', 0, 0, 0, 22, // tag, length
        b'S', b'E', b'R', b'R', b'O', b'R', 0, // severity
        b'C', b'5', b'8', b'0', b'0', b'0', 0, // code
        b'M', b'x', 0, // message
        0, // field-list terminator
    ];
    assert_eq!(msg, expected);
}

#[test]
fn decimal_rendering() {
    assert_eq!(decimal_bytes(0), b"0".to_vec());
    assert_eq!(decimal_bytes(7), b"7".to_vec());
    assert_eq!(decimal_bytes(42), b"42".to_vec());
    assert_eq!(decimal_bytes(6432), b"6432".to_vec());
    assert_eq!(decimal_bytes(u64::MAX), b"18446744073709551615".to_vec());
}

#[test]
fn simple_query_frame_bytes() {
    assert_eq!(simple_query("SHOW STATS"), query_frame(b"SHOW STATS"));
    assert_eq!(
        simple_query("R"),
        vec![b'Q', 0, 0, 0, 6, b'R', 0]
    );
}

#[test]
fn simple_query_round_trip() {
    let q = "SET application_name = 'psql'";
    assert_eq!(parse_query(&simple_query(q)), Ok(q.as_bytes().to_vec()));
}
