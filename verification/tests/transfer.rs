use tailsend::platform::{FileMetadata, MAX_FILE_NAME_HEADER_BYTES};
use tailsend::protocol::limits::MAX_TEXT_PAYLOAD_SIZE;
use tailsend::transfer::{
    check_body_read, check_cancelled, check_expected_size, check_no_excess, check_read,
    check_text_len, check_write, encode_name_header, next_chunk_len, parse_name_header,
    HeaderProgress, NameHeaderReader, TextMessageDecoder, TransferError,
};
use tailsend::transport::TransportError;

#[test]
fn test_live_name_header_uses_last_colon_and_sanitizes_name() {
    let header = parse_name_header(b"NAME:archive:2026.txt:42\n").unwrap();
    assert_eq!(header.name, "archive_2026.txt");
    assert_eq!(header.size, 42);

    let encoded = encode_name_header(&FileMetadata {
        name: "folder/file.txt".to_string(),
        size: 42,
    })
    .unwrap();
    assert_eq!(encoded, b"NAME:file.txt:42\n");
}

#[test]
fn test_live_name_header_rejects_unbounded_input() {
    let mut oversized = b"NAME:".to_vec();
    oversized.extend(std::iter::repeat(b'a').take(MAX_FILE_NAME_HEADER_BYTES));
    assert!(matches!(
        parse_name_header(&oversized),
        Err(TransferError::NameHeaderTooLarge)
    ));
    assert!(matches!(
        parse_name_header(b"NAME:missing-size\n"),
        Err(TransferError::InvalidNameHeader(_))
    ));
}

#[test]
fn name_header_round_trips_through_encoding() {
    for (name, size) in [("report.pdf", 0u64), ("日本語.txt", 12345), ("a:b", u64::MAX)] {
        let encoded = encode_name_header(&FileMetadata { name: name.to_string(), size }).unwrap();
        let parsed = parse_name_header(&encoded).unwrap();
        assert_eq!(parsed.size, size);
        assert_eq!(parsed.name, tailsend::protocol::filename::sanitize_filename(name).unwrap());
    }
}

#[test]
fn name_header_rejects_missing_prefix_and_bad_sizes() {
    assert!(matches!(
        parse_name_header(b"FILE:x:1\n"),
        Err(TransferError::InvalidNameHeader(_))
    ));
    assert!(matches!(
        parse_name_header(b"NAME:x:-1\n"),
        Err(TransferError::InvalidNameHeader(_))
    ));
    assert!(matches!(
        parse_name_header(b"NAME:x:18446744073709551616\n"),
        Err(TransferError::InvalidNameHeader(_))
    ));
}

#[test]
fn header_reader_collects_split_headers_and_keeps_the_body() {
    let mut reader = NameHeaderReader::new();
    assert!(matches!(reader.push(b"NAME:re"), HeaderProgress::Incomplete));
    match reader.push(b"port.txt:5\nhello") {
        HeaderProgress::Complete(Ok(h), body) => {
            assert_eq!(h.name, "report.txt");
            assert_eq!(h.size, 5);
            assert_eq!(body, b"hello");
        }
        _ => panic!("header should be complete"),
    }
    let mut reader = NameHeaderReader::new();
    assert!(matches!(reader.push(b"NAME:x"), HeaderProgress::Incomplete));
    assert!(matches!(reader.push(b""), HeaderProgress::Failed(_)));
}

#[test]
fn test_text_message_decoder_handles_fragmented_lines_and_limit() {
    let mut decoder = TextMessageDecoder::new();
    assert!(decoder.push(b"first\nsec").unwrap().contains(&"first".to_string()));
    assert_eq!(decoder.push(b"ond\n").unwrap(), vec!["second"]);
    assert_eq!(decoder.finish().unwrap(), Vec::<String>::new());

    let oversized = vec![b'x'; MAX_TEXT_PAYLOAD_SIZE as usize + 1];
    assert!(matches!(decoder.push(&oversized), Err(TransferError::TextTooLarge)));
}

#[test]
fn decoder_rejects_large_fragment_before_retaining_it_and_handles_many_lines() {
    let mut decoder = TextMessageDecoder::new();
    let huge = vec![b'a'; MAX_TEXT_PAYLOAD_SIZE as usize + 1];
    assert!(matches!(decoder.push(&huge), Err(TransferError::TextTooLarge)));
    assert!(decoder.finish().unwrap().is_empty());
    let many = b"ok\n".repeat(10_000);
    assert_eq!(decoder.push(&many).unwrap(), vec!["ok"; 10_000]);
}

#[test]
fn decoder_flushes_the_unfinished_line_and_refuses_bad_utf8() {
    let mut decoder = TextMessageDecoder::new();
    assert_eq!(decoder.push(b"tail").unwrap(), Vec::<String>::new());
    assert_eq!(decoder.finish().unwrap(), vec!["tail"]);
    let mut decoder = TextMessageDecoder::new();
    assert!(matches!(decoder.push(b"\xff\xfe\n"), Err(TransferError::InvalidUtf8)));
}

#[test]
fn stream_step_checks() {
    assert!(matches!(check_cancelled(true), Err(TransferError::Cancelled)));
    assert!(check_cancelled(false).is_ok());

    assert!(matches!(check_write(10, 0), Err(TransferError::WriteZero)));
    assert!(matches!(
        check_write(10, 11),
        Err(TransferError::WriteOverrun { requested: 10, actual: 11 })
    ));
    assert_eq!(check_write(10, 4).unwrap(), 4);

    assert!(matches!(
        check_read(8, 9),
        Err(TransferError::ReadOverrun { requested: 8, actual: 9 })
    ));
    assert_eq!(check_read(8, 0).unwrap(), 0);

    assert!(matches!(check_body_read(8, 0), Err(TransferError::UnexpectedEof)));
    assert_eq!(check_body_read(8, 8).unwrap(), 8);

    assert_eq!(next_chunk_len(100, 90, 64), 10);
    assert_eq!(next_chunk_len(1000, 0, 64), 64);

    assert!(matches!(
        check_expected_size(Some(5), 4),
        Err(TransferError::SizeMismatch { expected: 5, actual: 4 })
    ));
    assert!(check_expected_size(None, 4).is_ok());
    assert!(check_expected_size(Some(4), 4).is_ok());

    assert!(matches!(
        check_no_excess(10, 3),
        Err(TransferError::SizeMismatch { expected: 10, actual: 13 })
    ));
    assert!(check_no_excess(10, 0).is_ok());

    assert!(check_text_len("hello").is_ok());
    let big = "x".repeat(MAX_TEXT_PAYLOAD_SIZE as usize + 1);
    assert!(matches!(check_text_len(&big), Err(TransferError::TextTooLarge)));
}

#[test]
fn only_transport_cancellation_counts_as_peer_cancellation() {
    assert!(TransferError::Transport(TransportError::Cancelled).is_peer_cancelled());
    assert!(!TransferError::Cancelled.is_peer_cancelled());
    assert!(!TransferError::Transport(TransportError::Closed).is_peer_cancelled());
}
