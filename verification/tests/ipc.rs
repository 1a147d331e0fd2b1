use tailsend::ipc::{
    qr_response, Frame, IpcError, MessageKind, Opcode, HEADER_LEN, MAGIC, MAX_PAYLOAD_LEN, STATUS_OK,
};
use tailsend::session::ui::UiQrBitmap;

#[test]
fn round_trip_preserves_binary_payload_and_identifiers() {
    let frame = Frame {
        kind: MessageKind::Event,
        opcode: Opcode::WaitEvent,
        request_id: 42,
        sequence: 99,
        status: 7,
        payload: vec![0, 1, 2, 255],
    };
    let encoded = frame.encode().unwrap();
    assert_eq!(encoded.len(), HEADER_LEN + 4);
    assert_eq!(Frame::decode(&encoded).unwrap(), frame);
}

#[test]
fn rejects_trailing_and_truncated_bytes() {
    let encoded = Frame::request(Opcode::Snapshot, 1, vec![1]).encode().unwrap();
    assert!(matches!(
        Frame::decode(&encoded[..HEADER_LEN - 1]),
        Err(IpcError::TruncatedHeader(_))
    ));
    let mut trailing = encoded.clone();
    trailing.push(9);
    assert!(matches!(
        Frame::decode(&trailing),
        Err(IpcError::LengthMismatch { .. })
    ));
}

#[test]
fn rejects_bad_header_values() {
    let mut encoded = Frame::request(Opcode::Snapshot, 1, Vec::new()).encode().unwrap();
    encoded[0] = b'X';
    assert_eq!(Frame::decode(&encoded), Err(IpcError::InvalidMagic));
    encoded[0] = MAGIC[0];
    encoded[4] = 1;
    assert_eq!(Frame::decode(&encoded), Err(IpcError::UnsupportedVersion(1)));
}

#[test]
fn unknown_kind_and_opcode_are_reported() {
    let mut encoded = Frame::request(Opcode::Snapshot, 1, Vec::new()).encode().unwrap();
    encoded[5] = 200;
    assert_eq!(Frame::decode(&encoded), Err(IpcError::UnknownKind(200)));
    let mut encoded = Frame::request(Opcode::Snapshot, 1, Vec::new()).encode().unwrap();
    encoded[6] = 0xff;
    encoded[7] = 0xff;
    assert_eq!(Frame::decode(&encoded), Err(IpcError::UnknownOpcode(0xffff)));
}

#[test]
fn oversized_payloads_are_refused_both_ways() {
    let frame = Frame::request(Opcode::SendText, 3, vec![0; MAX_PAYLOAD_LEN + 1]);
    assert_eq!(frame.encode(), Err(IpcError::PayloadTooLarge(MAX_PAYLOAD_LEN + 1)));
}

#[test]
fn response_echoes_the_request() {
    let request = Frame::request(Opcode::QrCode, 77, vec![5]);
    let response = Frame::response(&request, 0, vec![1, 2]);
    assert_eq!(response.kind, MessageKind::Response);
    assert_eq!(response.opcode, Opcode::QrCode);
    assert_eq!(response.request_id, 77);
    assert_eq!(response.payload, vec![1, 2]);
    let again = Frame::decode(&response.encode().unwrap()).unwrap();
    assert_eq!(again, response);
}

#[test]
fn codes_round_trip() {
    for op in [
        Opcode::Snapshot,
        Opcode::CreateInvite,
        Opcode::Join,
        Opcode::SendText,
        Opcode::SendFiles,
        Opcode::PickAndSendFiles,
        Opcode::SaveText,
        Opcode::QrCode,
        Opcode::CancelTransfer,
        Opcode::Disconnect,
        Opcode::OpenReceived,
        Opcode::Subscribe,
        Opcode::Unsubscribe,
        Opcode::WaitEvent,
    ] {
        assert_eq!(Opcode::from_code(op.code()), Ok(op));
    }
    for kind in [
        MessageKind::Request,
        MessageKind::Response,
        MessageKind::Event,
        MessageKind::Subscribe,
        MessageKind::Unsubscribe,
        MessageKind::WaitEvent,
    ] {
        assert_eq!(MessageKind::from_code(kind.code()), Ok(kind));
    }
}

#[test]
fn qr_payload_has_fixed_dimensions_before_pixels() {
    let request = Frame::request(Opcode::QrCode, 4, Vec::new());
    let bitmap = UiQrBitmap { width: 2, height: 1, rgba_pixels: vec![1, 2, 3, 4, 5, 6, 7, 8] };
    let response = qr_response(&request, bitmap);
    assert_eq!(&response.payload[..8], &[2, 0, 0, 0, 1, 0, 0, 0]);
    assert_eq!(response.payload.len(), 16);
    assert_eq!(response.status, STATUS_OK);
    assert_eq!(response.request_id, 4);
}
