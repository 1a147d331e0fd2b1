use ciborium::Value;
use hmac::{Hmac, Mac};
use tailsend::protocol::auth::{
    compute_host_proof, compute_joiner_proof, verify_host_proof, verify_joiner_proof, AuthError,
};
use tailsend::protocol::control::{
    accept_control_message, check_control_payload, frame_control_payload, Capabilities,
    ControlCodecError, ControlMessage, MessageBody, MessageType, PeerInfo, PlatformKind, TextOffer,
};
use tailsend::protocol::data_header::{
    DataHeaderError, FileDataHeader, TextDataHeader, FILE_HEADER_LEN, TEXT_HEADER_LEN,
};
use tailsend::protocol::filename::{generate_unique_filename, sanitize_filename};
use tailsend::protocol::invitation::{check_invitation_cbor, InvitationError, InvitationV1};
use tailsend::protocol::limits::{
    MAX_CONTROL_FRAME_SIZE, MAX_INVITATION_B64_BYTES, MAX_INVITATION_CBOR_BYTES,
    MAX_QR_URL_BYTES, MAX_TEXT_PAYLOAD_SIZE, PROTOCOL_MAJOR,
};

fn cbor(value: &Value) -> Vec<u8> {
    let mut out = Vec::new();
    ciborium::into_writer(value, &mut out).unwrap();
    out
}

fn key(k: &str) -> Value {
    Value::Text(k.to_string())
}

/// The CBOR encoding of a peer description, with the field numbers of the
/// wire format.
fn peer_info_cbor(p: &PeerInfo) -> Vec<u8> {
    let mut fields = vec![
        (key("1"), Value::Text(p.display_name.clone())),
        (key("2"), Value::Integer(p.platform.into())),
        (key("3"), Value::Integer(p.runtime.into())),
        (key("4"), Value::Text(p.app_version.clone())),
    ];
    if let Some(b) = p.browser_family {
        fields.push((key("5"), Value::Integer(b.into())));
    }
    cbor(&Value::Map(fields))
}

fn capabilities_cbor(c: &Capabilities) -> Vec<u8> {
    cbor(&Value::Map(vec![
        (key("1"), Value::Bool(c.text)),
        (key("2"), Value::Bool(c.files)),
        (key("3"), Value::Bool(c.directories)),
        (key("4"), Value::Bool(c.transfer_resume)),
        (key("5"), Value::Integer(c.max_text_bytes.into())),
        (key("6"), Value::Integer(c.max_control_frame.into())),
        (key("7"), Value::Integer(c.max_files_per_offer.into())),
        (key("8"), Value::Integer(c.max_filename_bytes.into())),
        (key("9"), Value::Bool(c.streaming_receive)),
    ]))
}

fn invitation_cbor(inv: &InvitationV1) -> Vec<u8> {
    cbor(&Value::Map(vec![
        (key("1"), Value::Integer(inv.format_version.into())),
        (key("2"), Value::Integer(inv.protocol_major.into())),
        (key("3"), Value::Text(inv.host_address.clone())),
        (key("4"), Value::Bytes(inv.session_id.to_vec())),
        (key("5"), Value::Bytes(inv.invite_secret.to_vec())),
        (key("6"), Value::Integer(inv.issued_at.into())),
        (key("7"), Value::Integer(inv.expires_at.into())),
    ]))
}

fn parse_invitation(bytes: &[u8]) -> Result<InvitationV1, String> {
    let value: Value = ciborium::from_reader(bytes).map_err(|e| e.to_string())?;
    let map = match value {
        Value::Map(m) => m,
        _ => return Err("not a map".to_string()),
    };
    let get = |k: &str| {
        map.iter()
            .find(|(key, _)| key.as_text() == Some(k))
            .map(|(_, v)| v.clone())
            .ok_or_else(|| format!("missing field {k}"))
    };
    let int = |v: Value| -> Result<u64, String> {
        v.as_integer()
            .and_then(|i| u64::try_from(i).ok())
            .ok_or_else(|| "not an integer".to_string())
    };
    let bytes_of = |v: Value| -> Result<Vec<u8>, String> {
        v.as_bytes().cloned().ok_or_else(|| "not bytes".to_string())
    };
    Ok(InvitationV1 {
        format_version: int(get("1")?)? as u32,
        protocol_major: int(get("2")?)? as u32,
        host_address: get("3")?.as_text().ok_or("not text")?.to_string(),
        session_id: bytes_of(get("4")?)?.try_into().map_err(|_| "bad id")?,
        invite_secret: bytes_of(get("5")?)?.try_into().map_err(|_| "bad secret")?,
        issued_at: int(get("6")?)?,
        expires_at: int(get("7")?)?,
    })
}

/// Reads an invitation from its CBOR encoding as the applications do: the
/// size check, the decoding, then the checks at time `now`.
fn invitation_from_cbor(bytes: &[u8], now: u64) -> Result<InvitationV1, InvitationError> {
    check_invitation_cbor(bytes)?;
    let inv = parse_invitation(bytes).map_err(InvitationError::Deserialization)?;
    inv.validate(now)?;
    Ok(inv)
}

fn invitation_from_url(url: &str, now: u64) -> Result<InvitationV1, InvitationError> {
    let bytes = InvitationV1::from_url(url)?;
    invitation_from_cbor(&bytes, now)
}

#[test]
fn test_invitation_roundtrip() {
    let host_address = "tc-test-addr-12345".to_string();
    let session_id = [1u8; 16];
    let invite_secret = [2u8; 32];
    let now = 1756800000;
    let lifetime = 600;

    let inv = InvitationV1::new(host_address.clone(), session_id, invite_secret, now, lifetime);

    let cbor = invitation_cbor(&inv);
    assert!(cbor.len() <= MAX_INVITATION_CBOR_BYTES);

    let decoded = invitation_from_cbor(&cbor, now).expect("cbor deserialization");
    assert_eq!(inv, decoded);

    let url = InvitationV1::to_qr_url(&cbor, "https://tailsend.example.com").expect("qr url");
    assert!(url.len() <= MAX_QR_URL_BYTES);
    assert!(url.starts_with("https://tailsend.example.com/#i="));

    let b64 = &url["https://tailsend.example.com/#i=".len()..];
    assert!(b64.len() <= MAX_INVITATION_B64_BYTES);
    let decoded_b64 = InvitationV1::from_base64url(b64).expect("base64url decode");
    assert_eq!(decoded_b64, cbor);
    assert_eq!(inv, invitation_from_cbor(&decoded_b64, now).unwrap());

    let decoded_url = invitation_from_url(&url, now).expect("url decode");
    assert_eq!(inv, decoded_url);
}

#[test]
fn test_invitation_malformed_and_edge_cases() {
    let now = 1756800000;

    // Malformed URL (missing hash fragment)
    let res = invitation_from_url("https://tailsend.example.com/no-hash", now);
    assert!(matches!(res, Err(InvitationError::InvalidUrlFormat)));

    // Malformed base64url payload
    let res = invitation_from_url("https://tailsend.example.com/#i=!!InvalidBase64!!", now);
    assert!(matches!(res, Err(InvitationError::Base64(_))));

    // Corrupted CBOR bytes
    let corrupted_cbor = [0xff, 0xff, 0xff];
    let res = invitation_from_cbor(&corrupted_cbor, now);
    assert!(matches!(res, Err(InvitationError::Deserialization(_))));

    // Truncated CBOR payload
    let valid_inv = InvitationV1::new("tc-addr-test".to_string(), [1u8; 16], [2u8; 32], now, 300);
    let cbor = invitation_cbor(&valid_inv);
    let truncated = &cbor[..cbor.len() / 2];
    let res = invitation_from_cbor(truncated, now);
    assert!(matches!(res, Err(InvitationError::Deserialization(_))));
}

#[test]
fn test_invitation_expiration() {
    let host_address = "tc-test-addr-12345".to_string();
    let session_id = [1u8; 16];
    let invite_secret = [2u8; 32];
    let issued_at = 1756800000;
    let lifetime = 600;

    let inv = InvitationV1::new(host_address, session_id, invite_secret, issued_at, lifetime);

    let cbor = invitation_cbor(&inv);

    // Valid within lifetime
    assert!(invitation_from_cbor(&cbor, issued_at + 300).is_ok());

    // Valid within clock skew margin (lifetime + 50s <= 600 + 60s)
    assert!(invitation_from_cbor(&cbor, issued_at + 650).is_ok());

    // Expired (> 600 + 60 clock skew)
    let res = invitation_from_cbor(&cbor, issued_at + 661);
    assert!(matches!(res, Err(InvitationError::Expired { .. })));

    // Future issued within skew margin (30s in future <= 60s skew)
    assert!(invitation_from_cbor(&cbor, issued_at - 30).is_ok());

    // Future issued (> 60s in the future)
    let res = invitation_from_cbor(&cbor, issued_at - 61);
    assert!(matches!(res, Err(InvitationError::FutureIssued { .. })));
}

#[test]
fn invitation_lifetime_is_capped_and_fields_are_checked() {
    let inv = InvitationV1::new("tc-a".to_string(), [0; 16], [0; 32], 1000, 100_000);
    assert_eq!(inv.expires_at, 1000 + 3600);

    let mut bad = inv.clone();
    bad.host_address = "xx-host".to_string();
    assert!(matches!(bad.validate_fields(), Err(InvitationError::InvalidHostAddressPrefix)));

    let mut bad = inv.clone();
    bad.format_version = 2;
    assert!(matches!(bad.validate_fields(), Err(InvitationError::InvalidFormatVersion(2))));

    let mut bad = inv.clone();
    bad.protocol_major = PROTOCOL_MAJOR + 1;
    assert!(matches!(bad.validate_fields(), Err(InvitationError::InvalidProtocolMajor(_))));

    let mut bad = inv;
    bad.host_address = format!("tc{}", "a".repeat(767));
    assert!(matches!(bad.validate_fields(), Err(InvitationError::HostAddressTooLong(769))));
}

#[test]
fn qr_url_refuses_oversized_invitations() {
    let big = vec![0u8; MAX_INVITATION_CBOR_BYTES + 1];
    assert!(matches!(
        InvitationV1::to_qr_url(&big, "https://x.example"),
        Err(InvitationError::CborTooLarge(n)) if n == MAX_INVITATION_CBOR_BYTES + 1
    ));
    assert!(matches!(
        check_invitation_cbor(&big),
        Err(InvitationError::CborTooLarge(_))
    ));
    let url = InvitationV1::to_qr_url(&[1, 2, 3], "https://x.example///").unwrap();
    assert_eq!(url, "https://x.example/#i=AQID");
    assert_eq!(InvitationV1::from_url("AQID").unwrap(), vec![1, 2, 3]);
    assert_eq!(InvitationV1::from_url("i=AQID").unwrap(), vec![1, 2, 3]);
    assert!(matches!(
        InvitationV1::from_url("x=AQID"),
        Err(InvitationError::InvalidUrlFormat)
    ));
}

#[test]
fn test_hmac_proof_verification() {
    let invite_secret = [42u8; 32];
    let session_id = [10u8; 16];
    let joiner_nonce = [11u8; 32];
    let host_nonce = [12u8; 32];
    let joiner_addr = "tc-joiner-9876";
    let host_addr = "tc-host-1234";

    let peer_info =
        PeerInfo::new_native("Alice's PC".to_string(), PlatformKind::Windows, "1.0.0".to_string());
    let capabilities = Capabilities::default();
    let info = peer_info_cbor(&peer_info);
    let caps = capabilities_cbor(&capabilities);

    // Joiner Proof
    let joiner_proof =
        compute_joiner_proof(&invite_secret, &session_id, &joiner_nonce, joiner_addr, &info, &caps)
            .expect("joiner proof");

    verify_joiner_proof(
        &invite_secret,
        &session_id,
        &joiner_nonce,
        joiner_addr,
        &info,
        &caps,
        &joiner_proof,
    )
    .expect("verify joiner proof");

    // Tamper test (1 bit mutation)
    let mut corrupted_proof = joiner_proof;
    corrupted_proof[0] ^= 0x01;
    let err = verify_joiner_proof(
        &invite_secret,
        &session_id,
        &joiner_nonce,
        joiner_addr,
        &info,
        &caps,
        &corrupted_proof,
    );
    assert!(matches!(err, Err(AuthError::VerificationFailed)));

    // Tamper test (wrong secret)
    let wrong_secret = [99u8; 32];
    let err = verify_joiner_proof(
        &wrong_secret,
        &session_id,
        &joiner_nonce,
        joiner_addr,
        &info,
        &caps,
        &joiner_proof,
    );
    assert!(matches!(err, Err(AuthError::VerificationFailed)));

    // Tamper test (altered peer info)
    let mut altered_peer_info = peer_info.clone();
    altered_peer_info.display_name = "Mallory's PC".to_string();
    let err = verify_joiner_proof(
        &invite_secret,
        &session_id,
        &joiner_nonce,
        joiner_addr,
        &peer_info_cbor(&altered_peer_info),
        &caps,
        &joiner_proof,
    );
    assert!(matches!(err, Err(AuthError::VerificationFailed)));

    // Host Proof
    let host_proof = compute_host_proof(
        &invite_secret,
        &session_id,
        &joiner_nonce,
        &host_nonce,
        host_addr,
        joiner_addr,
        &info,
        &caps,
    )
    .expect("host proof");

    verify_host_proof(
        &invite_secret,
        &session_id,
        &joiner_nonce,
        &host_nonce,
        host_addr,
        joiner_addr,
        &info,
        &caps,
        &host_proof,
    )
    .expect("verify host proof");

    // A proof of the wrong length is refused by its length.
    let err = verify_host_proof(
        &invite_secret,
        &session_id,
        &joiner_nonce,
        &host_nonce,
        host_addr,
        joiner_addr,
        &info,
        &caps,
        &host_proof[..31],
    );
    assert!(matches!(err, Err(AuthError::InvalidProofLength(31))));
    assert_ne!(joiner_proof, host_proof);
}

#[test]
fn joiner_proof_is_the_hmac_of_the_documented_message() {
    // HMAC-SHA256 with key "key" over "tailsend/join/v1", a zero session,
    // a zero nonce, the address "tc" with its 4-byte length, then "i" and "c".
    let tag = compute_joiner_proof(b"key", &[0; 16], &[0; 32], "tc", b"i", b"c").unwrap();
    let mut message = b"tailsend/join/v1".to_vec();
    message.extend_from_slice(&[0; 16]);
    message.extend_from_slice(&[0; 32]);
    message.extend_from_slice(&[0, 0, 0, 2]);
    message.extend_from_slice(b"tc");
    message.extend_from_slice(b"i");
    message.extend_from_slice(b"c");
    let mut mac = <Hmac<sha2::Sha256> as Mac>::new_from_slice(b"key").unwrap();
    mac.update(&message);
    let expected: [u8; 32] = mac.finalize().into_bytes().into();
    assert_eq!(tag, expected);
}

#[test]
fn test_control_message_framing_and_limits() {
    let session_id = [5u8; 16];
    let offer = TextOffer { byte_length: 12, character_count: 5, preview: "Hello".to_string() };

    let msg = ControlMessage::new(
        MessageType::TextOffer,
        &session_id,
        1,
        None,
        Some(MessageBody::TextOffer(offer)),
    );
    assert_eq!(msg.message_type, MessageType::TextOffer.code());
    assert_eq!(msg.sequence_number, 1);
    assert_eq!(msg.session_id, session_id);

    // A payload as the encoder would produce it.
    let payload = cbor(&Value::Map(vec![
        (key("1"), Value::Integer(msg.protocol_major.into())),
        (key("3"), Value::Integer(msg.message_type.into())),
    ]));
    let framed = frame_control_payload(&payload).expect("encode framed");
    assert!(framed.len() >= 4);

    let len = u32::from_be_bytes(framed[0..4].try_into().unwrap()) as usize;
    assert_eq!(len, framed.len() - 4);
    assert_eq!(&framed[4..], &payload[..]);
    assert!(check_control_payload(&framed[4..]).is_ok());

    let decoded = accept_control_message(msg).expect("decode payload");
    assert_eq!(decoded.message_type, MessageType::TextOffer.code());
    assert_eq!(decoded.sequence_number, 1);
    assert_eq!(decoded.session_id, session_id);

    // Zero-length payload rejection
    let empty_payload: [u8; 0] = [];
    let res = check_control_payload(&empty_payload);
    assert!(matches!(res, Err(ControlCodecError::ZeroLengthFrame)));
    assert!(matches!(
        frame_control_payload(&empty_payload),
        Err(ControlCodecError::ZeroLengthFrame)
    ));

    // Oversized payload rejection
    let oversized = vec![0u8; MAX_CONTROL_FRAME_SIZE + 1];
    let res = check_control_payload(&oversized);
    assert!(matches!(res, Err(ControlCodecError::FrameTooLarge(_))));
    assert!(matches!(
        frame_control_payload(&oversized),
        Err(ControlCodecError::FrameTooLarge(n)) if n == MAX_CONTROL_FRAME_SIZE + 1
    ));
}

#[test]
fn control_messages_of_another_major_version_are_refused() {
    let mut msg = ControlMessage::new(MessageType::Ping, &[1; 16], 4, Some([2; 16]), None);
    assert_eq!(msg.correlation_id, Some(vec![2; 16]));
    msg.protocol_major = PROTOCOL_MAJOR + 1;
    assert!(matches!(
        accept_control_message(msg),
        Err(ControlCodecError::ProtocolMajorMismatch { expected: 1, actual: 2 })
    ));
}

#[test]
fn test_data_headers_validation() {
    let session_id = [7u8; 16];
    let transfer_id = [8u8; 16];

    // Text header
    let text_hdr = TextDataHeader::new(session_id, transfer_id, 1024).expect("text header");
    let encoded_text = text_hdr.encode();
    assert_eq!(encoded_text.len(), TEXT_HEADER_LEN);
    let decoded_text = TextDataHeader::decode(&encoded_text).expect("decode text header");
    assert_eq!(text_hdr, decoded_text);

    // Text header bad magic
    let mut bad_text = encoded_text;
    bad_text[0..4].copy_from_slice(b"BAD1");
    assert!(matches!(
        TextDataHeader::decode(&bad_text),
        Err(DataHeaderError::InvalidMagic { .. })
    ));

    // Text header payload size exceeding limit (> 1 MiB)
    let oversized_text = TextDataHeader::new(session_id, transfer_id, MAX_TEXT_PAYLOAD_SIZE + 1);
    assert!(matches!(oversized_text, Err(DataHeaderError::TextSizeTooLarge(_))));

    // File header
    let file_hdr = FileDataHeader::new(session_id, transfer_id, 1, 0, 1048576).expect("file header");
    let encoded_file = file_hdr.encode();
    assert_eq!(encoded_file.len(), FILE_HEADER_LEN);
    let decoded_file = FileDataHeader::decode(&encoded_file).expect("decode file header");
    assert_eq!(file_hdr, decoded_file);

    // File header bad magic
    let mut bad_file = encoded_file;
    bad_file[0..4].copy_from_slice(b"BAD2");
    assert!(matches!(
        FileDataHeader::decode(&bad_file),
        Err(DataHeaderError::InvalidMagic { .. })
    ));
}

#[test]
fn data_headers_reject_short_input_and_nonzero_offsets() {
    assert!(matches!(
        TextDataHeader::decode(&[0u8; 10]),
        Err(DataHeaderError::TextHeaderTooShort(10))
    ));
    assert!(matches!(
        FileDataHeader::decode(&[0u8; 59]),
        Err(DataHeaderError::FileHeaderTooShort(59))
    ));
    assert!(matches!(
        FileDataHeader::new([0; 16], [0; 16], 1, 5, 10),
        Err(DataHeaderError::NonZeroOffset(5))
    ));
    let hdr = TextDataHeader::new([3; 16], [4; 16], 0x0102).unwrap();
    let bytes = hdr.encode();
    assert_eq!(&bytes[0..4], b"TST1");
    assert_eq!(&bytes[40..48], &[0, 0, 0, 0, 0, 0, 1, 2]);
    let mut bad_version = bytes.clone();
    bad_version[4] = 9;
    assert!(matches!(
        TextDataHeader::decode(&bad_version),
        Err(DataHeaderError::InvalidVersion(9))
    ));
}

#[test]
fn test_filename_sanitizer_full_matrix() {
    // Valid filenames
    assert_eq!(sanitize_filename("photo.jpg").unwrap(), "photo.jpg");
    assert_eq!(sanitize_filename("my-document_v2.pdf").unwrap(), "my-document_v2.pdf");

    // Deep path traversal
    assert_eq!(sanitize_filename("../../etc/passwd").unwrap(), "passwd");
    assert_eq!(sanitize_filename("../../../var/log/syslog").unwrap(), "syslog");
    assert_eq!(sanitize_filename("..\\..\\Windows\\System32\\cmd.exe").unwrap(), "cmd.exe");

    // Absolute drive and UNC paths
    assert_eq!(sanitize_filename("C:\\Users\\admin\\document.pdf").unwrap(), "document.pdf");
    assert_eq!(sanitize_filename("D:/Data/Project/report.docx").unwrap(), "report.docx");
    assert_eq!(sanitize_filename("\\\\server\\share\\archive.zip").unwrap(), "archive.zip");

    // Multilingual & Emoji
    assert_eq!(sanitize_filename("日本語ファイル名 😊.png").unwrap(), "日本語ファイル名 😊.png");
    assert_eq!(sanitize_filename("中文文件名.tar.gz").unwrap(), "中文文件名.tar.gz");

    // Windows Reserved Names
    let reserved_names = [
        "CON", "PRN", "AUX", "NUL", "COM1", "COM2", "COM3", "COM4", "COM5", "COM6", "COM7",
        "COM8", "COM9", "LPT1", "LPT2", "LPT3", "LPT4", "LPT5", "LPT6", "LPT7", "LPT8", "LPT9",
        "con", "prn", "aux.txt", "NUL.tar.gz",
    ];
    for name in reserved_names {
        let sanitized = sanitize_filename(name).unwrap();
        assert!(
            sanitized.starts_with('_'),
            "Reserved name '{}' should be prefixed with '_', got '{}'",
            name,
            sanitized
        );
    }

    // Invalid Characters Replacement
    assert_eq!(
        sanitize_filename("file<with>illegal:chars|?.txt").unwrap(),
        "file_with_illegal_chars__.txt"
    );

    // Trailing dots and spaces
    assert_eq!(sanitize_filename("trailing.dots...").unwrap(), "trailing.dots");
    assert_eq!(sanitize_filename("trailing spaces   ").unwrap(), "trailing spaces");

    // Empty filename fallback
    assert_eq!(sanitize_filename("").unwrap(), "unnamed_file");
    assert_eq!(sanitize_filename("///...").unwrap(), "unnamed_file");

    // Unique De-duplication Generation
    let mut existing = vec!["photo.jpg".to_string()];
    assert_eq!(generate_unique_filename(&existing, "photo.jpg"), "photo (1).jpg");

    existing.push("photo (1).jpg".to_string());
    assert_eq!(generate_unique_filename(&existing, "photo.jpg"), "photo (2).jpg");

    // Extensionless files
    existing.push("README".to_string());
    assert_eq!(generate_unique_filename(&existing, "README"), "README (1)");
}

#[test]
fn sanitizing_twice_changes_nothing_more() {
    for name in [
        "photo.jpg",
        "../../etc/passwd",
        "CON",
        "file<with>illegal:chars|?.txt",
        "trailing.dots...",
        "",
        " . ",
        "a/b\\c",
    ] {
        let once = sanitize_filename(name).unwrap();
        assert_eq!(sanitize_filename(&once).unwrap(), once, "{name:?}");
    }
}

#[test]
fn overlong_names_are_refused() {
    let long = "a".repeat(2000);
    assert!(sanitize_filename(&long).is_err());
}
