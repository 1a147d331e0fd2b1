use ciborium::Value;
use tailsend::protocol::auth::AuthError;
use tailsend::protocol::control::{
    Capabilities, ControlMessage, MessageBody, MessageType, PeerInfo, PlatformKind,
};
use tailsend::protocol::limits::MAX_CONTROL_FRAME_SIZE;
use tailsend::session::handshake::{
    check_control_port, control_frame_length, expect_message, host_answer, joiner_confirm,
    joiner_hello, ready_message, take_hello, HandshakeError, HandshakeResult,
};

fn cbor(value: Value) -> Vec<u8> {
    let mut out = Vec::new();
    ciborium::into_writer(&value, &mut out).unwrap();
    out
}

fn info_cbor(p: &PeerInfo) -> Vec<u8> {
    cbor(Value::Map(vec![
        (Value::Text("1".into()), Value::Text(p.display_name.clone())),
        (Value::Text("2".into()), Value::Integer(p.platform.into())),
        (Value::Text("3".into()), Value::Integer(p.runtime.into())),
        (Value::Text("4".into()), Value::Text(p.app_version.clone())),
    ]))
}

fn caps_cbor(c: &Capabilities) -> Vec<u8> {
    cbor(Value::Map(vec![
        (Value::Text("1".into()), Value::Bool(c.text)),
        (Value::Text("2".into()), Value::Bool(c.files)),
        (Value::Text("5".into()), Value::Integer(c.max_text_bytes.into())),
    ]))
}

const SECRET: [u8; 32] = [42; 32];
const SESSION: [u8; 16] = [10; 16];
const JOINER_NONCE: [u8; 32] = [11; 32];
const HOST_NONCE: [u8; 32] = [12; 32];

fn joiner() -> PeerInfo {
    PeerInfo::new_native("Phone".into(), PlatformKind::Android, "1.0".into())
}

fn host() -> PeerInfo {
    PeerInfo::new_native("Laptop".into(), PlatformKind::Linux, "1.0".into())
}

/// Runs both sides over in-memory messages; `secret` is what the host
/// holds.
fn run(host_secret: [u8; 32]) -> Result<HandshakeResult<()>, HandshakeError> {
    let caps = Capabilities::default();
    let hello = joiner_hello(
        &SECRET,
        &SESSION,
        &JOINER_NONCE,
        "tc-joiner",
        joiner(),
        caps,
        &info_cbor(&joiner()),
        &caps_cbor(&caps),
    )?;
    check_control_port(100)?;
    let client = take_hello(hello, MessageType::ClientHello)?;
    let answer = host_answer(
        &host_secret,
        &SESSION,
        &client,
        &info_cbor(&client.peer_info),
        &caps_cbor(&client.capabilities),
        &HOST_NONCE,
        "tc-host",
        host(),
        caps,
        &info_cbor(&host()),
        &caps_cbor(&caps),
    )?;
    let server = take_hello(answer, MessageType::ServerHello)?;
    let ready = joiner_confirm(
        &SECRET,
        &SESSION,
        &JOINER_NONCE,
        "tc-joiner",
        &server,
        "tc-host",
        &info_cbor(&server.peer_info),
        &caps_cbor(&server.capabilities),
    )?;
    expect_message(&ready, MessageType::SessionReady)?;
    let ack = ready_message(MessageType::SessionReadyAck, &SESSION);
    expect_message(&ack, MessageType::SessionReadyAck)?;
    Ok(HandshakeResult {
        control_stream: (),
        peer_address: client.tailcat_address,
        peer_info: client.peer_info,
        peer_capabilities: client.capabilities,
    })
}

#[test]
fn peers_with_the_same_invitation_complete_the_handshake() {
    let result = run(SECRET).expect("handshake");
    assert_eq!(result.peer_address, "tc-joiner");
    assert_eq!(result.peer_info, joiner());
    assert_eq!(result.peer_capabilities, Capabilities::default());
}

#[test]
fn a_joiner_without_the_secret_is_rejected() {
    assert!(matches!(
        run([0; 32]),
        Err(HandshakeError::ProofRejected(MessageType::ClientHello, AuthError::VerificationFailed))
    ));
}

#[test]
fn a_tampered_host_answer_is_rejected() {
    let caps = Capabilities::default();
    let hello = joiner_hello(
        &SECRET, &SESSION, &JOINER_NONCE, "tc-joiner", joiner(), caps,
        &info_cbor(&joiner()), &caps_cbor(&caps),
    )
    .unwrap();
    let client = take_hello(hello, MessageType::ClientHello).unwrap();
    let answer = host_answer(
        &SECRET, &SESSION, &client, &info_cbor(&joiner()), &caps_cbor(&caps), &HOST_NONCE,
        "tc-host", host(), caps, &info_cbor(&host()), &caps_cbor(&caps),
    )
    .unwrap();
    let server = take_hello(answer, MessageType::ServerHello).unwrap();
    // The joiner expected another host address than the one that answered.
    assert!(matches!(
        joiner_confirm(
            &SECRET, &SESSION, &JOINER_NONCE, "tc-joiner", &server, "tc-other",
            &info_cbor(&host()), &caps_cbor(&caps),
        ),
        Err(HandshakeError::ProofRejected(MessageType::ServerHello, AuthError::VerificationFailed))
    ));
}

#[test]
fn hello_messages_are_checked_before_their_proofs() {
    let ping = ControlMessage::new(MessageType::Ping, &SESSION, 1, None, None);
    assert!(matches!(
        take_hello(ping, MessageType::ClientHello),
        Err(HandshakeError::UnexpectedMessage { expected: MessageType::ClientHello, actual: 5 })
    ));
    let empty = ControlMessage::new(MessageType::ClientHello, &SESSION, 1, None, None);
    assert!(matches!(
        take_hello(empty, MessageType::ClientHello),
        Err(HandshakeError::InvalidHelloBody(MessageType::ClientHello))
    ));
    let caps = Capabilities::default();
    let mut hello = joiner_hello(
        &SECRET, &SESSION, &JOINER_NONCE, "tc-joiner", joiner(), caps,
        &info_cbor(&joiner()), &caps_cbor(&caps),
    )
    .unwrap();
    if let Some(MessageBody::Hello(b)) = &mut hello.body {
        b.nonce.pop();
    }
    assert!(matches!(
        take_hello(hello, MessageType::ClientHello),
        Err(HandshakeError::InvalidNonceLength(MessageType::ClientHello))
    ));
    assert!(matches!(check_control_port(101), Err(HandshakeError::WrongPort(101))));
}

#[test]
fn control_frame_lengths_are_bounded() {
    assert_eq!(control_frame_length(&[0, 0, 1, 0]).unwrap(), 256);
    assert!(matches!(control_frame_length(&[0, 0, 0, 0]), Err(HandshakeError::FrameLength(0))));
    let limit = (MAX_CONTROL_FRAME_SIZE as u32).to_be_bytes();
    assert_eq!(control_frame_length(&limit).unwrap(), MAX_CONTROL_FRAME_SIZE);
    let over = (MAX_CONTROL_FRAME_SIZE as u32 + 1).to_be_bytes();
    assert!(matches!(control_frame_length(&over), Err(HandshakeError::FrameLength(_))));
}

#[test]
fn readiness_messages_carry_sequence_two() {
    let ready = ready_message(MessageType::SessionReady, &SESSION);
    assert_eq!(ready.sequence_number, 2);
    assert_eq!(ready.message_type, MessageType::SessionReady.code());
    assert!(matches!(
        expect_message(&ready, MessageType::SessionReadyAck),
        Err(HandshakeError::UnexpectedMessage { actual: 3, .. })
    ));
}
