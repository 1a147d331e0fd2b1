use tailsend::mobile::{
    parse_file_header, tailcat_address_source, AddressSource, FileReceiver, LineCollector,
};

#[test]
fn file_header_splits_at_the_last_colon_and_trims_the_size() {
    assert_eq!(
        parse_file_header("NAME:archive:2026.txt: 42 "),
        Some(("archive_2026.txt".to_string(), 42))
    );
    assert_eq!(parse_file_header("NAME:missing-size"), None);
    assert_eq!(parse_file_header("FILE:a:1"), None);
    assert_eq!(parse_file_header("NAME:a:x"), None);
}

#[test]
fn line_collector_delivers_complete_lines_and_keeps_the_rest() {
    let mut lines = LineCollector::new();
    assert_eq!(lines.push(b"hello\nwor").unwrap(), vec!["hello"]);
    assert_eq!(lines.push(b"ld\n\nx").unwrap(), vec!["world", ""]);
    assert_eq!(lines.finish(), Some("x".to_string()));
}

#[test]
fn file_receiver_opens_on_header_and_reports_overflow() {
    let mut receiver = FileReceiver::new();
    let actions = receiver.on_data(b"NAME:note.txt:").unwrap();
    assert!(actions.open.is_none());
    assert!(actions.write.is_empty());
    let actions = receiver.on_data(b"4\nabc").unwrap();
    assert_eq!(actions.open, Some(("note.txt".to_string(), 4)));
    assert_eq!(actions.write, b"abc");
    assert!(!actions.overflow);
    assert!(!receiver.is_complete());
    let actions = receiver.on_data(b"de").unwrap();
    assert_eq!(actions.write, b"de");
    assert!(actions.overflow);

    let mut bad = FileReceiver::new();
    assert_eq!(
        bad.on_data(b"HELLO\n").err(),
        Some("Invalid file header: HELLO".to_string())
    );
}

#[test]
fn address_source_prefers_the_invitation_fragment() {
    match tailcat_address_source("  https://x.example/#i=abc&v=1 ") {
        AddressSource::Invitation(token) => assert_eq!(token, "abc"),
        _ => panic!("expected an invitation"),
    }
    match tailcat_address_source("tailcat://join?addr=tc-123&x=1") {
        AddressSource::Address(a) => assert_eq!(a, "tc-123"),
        _ => panic!("expected an address"),
    }
    match tailcat_address_source(" tc-plain ") {
        AddressSource::Address(a) => assert_eq!(a, "tc-plain"),
        _ => panic!("expected an address"),
    }
}
