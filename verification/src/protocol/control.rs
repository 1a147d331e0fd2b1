//! Control channel: message kinds, peer descriptions, payloads, and the
//! length-prefixed framing of encoded control messages.
//!
//! A control message travels as a 4-byte big-endian length followed by its
//! CBOR encoding.  The encoding itself is produced and parsed by the caller;
//! this module frames and checks the bytes and the decoded header.

use vstd::prelude::*;
use crate::bytes::{be_bytes, be_value, lemma_be_bytes, lemma_pow256_values, push_be};
use crate::protocol::limits::{
    MAX_CONTROL_FRAME_SIZE, MAX_FILENAME_BYTES, MAX_FILES_PER_OFFER, MAX_TEXT_PAYLOAD_SIZE,
    PROTOCOL_MAJOR, PROTOCOL_MINOR,
};
use crate::text::extend_from;

verus! {

#[derive(Debug)]
pub enum ControlCodecError {
    FrameTooLarge(usize),
    ZeroLengthFrame,
    Serialization(String),
    Deserialization(String),
    ProtocolMajorMismatch { expected: u32, actual: u32 },
    SessionIdMismatch { expected: Vec<u8>, actual: Vec<u8> },
    InvalidSequence { expected: u64, actual: u64 },
    UnsupportedMessageType(u32),
}

#[derive(Debug, Clone, Copy, PartialEq, Eq, Structural)]
pub enum MessageType {
    ClientHello,
    ServerHello,
    SessionReady,
    SessionReadyAck,
    Ping,
    Pong,
    Goodbye,
    Error,
    TextOffer,
    TextDecision,
    TextResult,
    FileOffer,
    FileDecision,
    FileItemResult,
    TransferComplete,
    TransferResult,
    TransferCancel,
}

impl MessageType {
    /// The number that stands for this kind on the wire.
    pub open spec fn wire_code(self) -> u32 {
        match self {
            MessageType::ClientHello => 1,
            MessageType::ServerHello => 2,
            MessageType::SessionReady => 3,
            MessageType::SessionReadyAck => 4,
            MessageType::Ping => 5,
            MessageType::Pong => 6,
            MessageType::Goodbye => 7,
            MessageType::Error => 8,
            MessageType::TextOffer => 20,
            MessageType::TextDecision => 21,
            MessageType::TextResult => 22,
            MessageType::FileOffer => 30,
            MessageType::FileDecision => 31,
            MessageType::FileItemResult => 32,
            MessageType::TransferComplete => 33,
            MessageType::TransferResult => 34,
            MessageType::TransferCancel => 35,
        }
    }

    pub fn code(self) -> (c: u32)
        ensures
            c == self.wire_code(),
    {
        match self {
            MessageType::ClientHello => 1,
            MessageType::ServerHello => 2,
            MessageType::SessionReady => 3,
            MessageType::SessionReadyAck => 4,
            MessageType::Ping => 5,
            MessageType::Pong => 6,
            MessageType::Goodbye => 7,
            MessageType::Error => 8,
            MessageType::TextOffer => 20,
            MessageType::TextDecision => 21,
            MessageType::TextResult => 22,
            MessageType::FileOffer => 30,
            MessageType::FileDecision => 31,
            MessageType::FileItemResult => 32,
            MessageType::TransferComplete => 33,
            MessageType::TransferResult => 34,
            MessageType::TransferCancel => 35,
        }
    }
}

#[derive(Debug, Clone, Copy, PartialEq, Eq, Structural)]
pub enum PlatformKind {
    Web,
    Windows,
    MacOS,
    Android,
    IOS,
    Linux,
    Unknown,
}

impl PlatformKind {
    pub open spec fn wire_code(self) -> u32 {
        match self {
            PlatformKind::Web => 1,
            PlatformKind::Windows => 2,
            PlatformKind::MacOS => 3,
            PlatformKind::Android => 4,
            PlatformKind::IOS => 5,
            PlatformKind::Linux => 6,
            PlatformKind::Unknown => 255,
        }
    }

    pub fn code(self) -> (c: u32)
        ensures
            c == self.wire_code(),
    {
        match self {
            PlatformKind::Web => 1,
            PlatformKind::Windows => 2,
            PlatformKind::MacOS => 3,
            PlatformKind::Android => 4,
            PlatformKind::IOS => 5,
            PlatformKind::Linux => 6,
            PlatformKind::Unknown => 255,
        }
    }
}

#[derive(Debug, Clone, Copy, PartialEq, Eq, Structural)]
pub enum RuntimeKind {
    Native,
    Browser,
}

impl RuntimeKind {
    pub open spec fn wire_code(self) -> u32 {
        match self {
            RuntimeKind::Native => 1,
            RuntimeKind::Browser => 2,
        }
    }

    pub fn code(self) -> (c: u32)
        ensures
            c == self.wire_code(),
    {
        match self {
            RuntimeKind::Native => 1,
            RuntimeKind::Browser => 2,
        }
    }
}

#[derive(Debug, Clone, Copy, PartialEq, Eq, Structural)]
pub enum BrowserFamily {
    Chrome,
    Edge,
    Safari,
    Firefox,
    Other,
}

impl BrowserFamily {
    pub open spec fn wire_code(self) -> u32 {
        match self {
            BrowserFamily::Chrome => 1,
            BrowserFamily::Edge => 2,
            BrowserFamily::Safari => 3,
            BrowserFamily::Firefox => 4,
            BrowserFamily::Other => 255,
        }
    }

    pub fn code(self) -> (c: u32)
        ensures
            c == self.wire_code(),
    {
        match self {
            BrowserFamily::Chrome => 1,
            BrowserFamily::Edge => 2,
            BrowserFamily::Safari => 3,
            BrowserFamily::Firefox => 4,
            BrowserFamily::Other => 255,
        }
    }
}

/// How a peer describes itself in the handshake.
#[derive(Debug, Clone, PartialEq, Eq)]
pub struct PeerInfo {
    pub display_name: String,
    pub platform: u32,
    pub runtime: u32,
    pub app_version: String,
    pub browser_family: Option<u32>,
}

impl PeerInfo {
    pub fn new_native(display_name: String, platform: PlatformKind, app_version: String) -> (p:
        Self)
        ensures
            p.display_name@ == display_name@,
            p.platform == platform.wire_code(),
            p.runtime == RuntimeKind::Native.wire_code(),
            p.app_version@ == app_version@,
            p.browser_family is None,
    {
        PeerInfo {
            display_name,
            platform: platform.code(),
            runtime: RuntimeKind::Native.code(),
            app_version,
            browser_family: None,
        }
    }

    pub fn new_browser(
        display_name: String,
        platform: PlatformKind,
        app_version: String,
        browser_family: BrowserFamily,
    ) -> (p: Self)
        ensures
            p.display_name@ == display_name@,
            p.platform == platform.wire_code(),
            p.runtime == RuntimeKind::Browser.wire_code(),
            p.app_version@ == app_version@,
            p.browser_family == Some(browser_family.wire_code()),
    {
        PeerInfo {
            display_name,
            platform: platform.code(),
            runtime: RuntimeKind::Browser.code(),
            app_version,
            browser_family: Some(browser_family.code()),
        }
    }
}

/// What a peer supports and the limits it enforces.
#[derive(Debug, Clone, Copy, PartialEq, Eq, Structural)]
pub struct Capabilities {
    pub text: bool,
    pub files: bool,
    pub directories: bool,
    pub transfer_resume: bool,
    pub max_text_bytes: u64,
    pub max_control_frame: u64,
    pub max_files_per_offer: u64,
    pub max_filename_bytes: u64,
    pub streaming_receive: bool,
}

impl Default for Capabilities {
    /// Text and files, streamed, within the protocol limits; no directories
    /// and no resume.
    fn default() -> (c: Self)
        ensures
            c.text,
            c.files,
            !c.directories,
            !c.transfer_resume,
            c.max_text_bytes == MAX_TEXT_PAYLOAD_SIZE,
            c.max_control_frame == MAX_CONTROL_FRAME_SIZE,
            c.max_files_per_offer == MAX_FILES_PER_OFFER,
            c.max_filename_bytes == MAX_FILENAME_BYTES,
            c.streaming_receive,
    {
        Capabilities {
            text: true,
            files: true,
            directories: false,
            transfer_resume: false,
            max_text_bytes: MAX_TEXT_PAYLOAD_SIZE,
            max_control_frame: 1048576,
            max_files_per_offer: 128,
            max_filename_bytes: 1024,
            streaming_receive: true,
        }
    }
}

/// Body of `ClientHello` and `ServerHello`.
#[derive(Debug, Clone, PartialEq, Eq)]
pub struct HelloPayload {
    pub nonce: Vec<u8>,
    pub tailcat_address: String,
    pub peer_info: PeerInfo,
    pub capabilities: Capabilities,
    pub proof: Vec<u8>,
}

#[derive(Debug, Clone, PartialEq, Eq)]
pub struct SessionReady {
    pub note: Option<String>,
}

#[derive(Debug, Clone, PartialEq, Eq)]
pub struct PingPong {
    pub token: u64,
}

#[derive(Debug, Clone, PartialEq, Eq)]
pub struct Goodbye {
    pub reason_code: Option<u32>,
    pub detail: Option<String>,
}

#[derive(Debug, Clone, PartialEq, Eq)]
pub struct ErrorBody {
    pub error_code: u32,
    pub detail: Option<String>,
}

#[derive(Debug, Clone, PartialEq, Eq)]
pub struct TextOffer {
    pub byte_length: u64,
    pub character_count: u64,
    pub preview: String,
}

/// Accept or decline of an offer; also the body of a result.
#[derive(Debug, Clone, PartialEq, Eq)]
pub struct Decision {
    pub accepted: bool,
    pub reason_code: Option<u32>,
    pub detail: Option<String>,
}

#[derive(Debug, Clone, PartialEq, Eq)]
pub struct FileItem {
    pub item_id: u32,
    pub name: String,
    pub size: u64,
    pub mime: Option<String>,
    pub modified_unix_ms: Option<i64>,
}

#[derive(Debug, Clone, PartialEq, Eq)]
pub struct FileOffer {
    pub items: Vec<FileItem>,
    pub total_size: u64,
}

#[derive(Debug, Clone, PartialEq, Eq)]
pub struct FileItemResult {
    pub item_id: u32,
    pub success: bool,
    pub reason_code: Option<u32>,
    pub detail: Option<String>,
}

#[derive(Debug, Clone, PartialEq, Eq)]
pub struct TransferCancel {
    pub reason_code: u32,
    pub detail: Option<String>,
}

#[derive(Debug, Clone, PartialEq, Eq)]
pub enum MessageBody {
    Hello(HelloPayload),
    SessionReady(SessionReady),
    PingPong(PingPong),
    Goodbye(Goodbye),
    Error(ErrorBody),
    TextOffer(TextOffer),
    Decision(Decision),
    FileOffer(FileOffer),
    FileItemResult(FileItemResult),
    TransferCancel(TransferCancel),
}

/// One control message, as encoded on the wire.
#[derive(Debug, Clone, PartialEq, Eq)]
pub struct ControlMessage {
    pub protocol_major: u32,
    pub protocol_minor: u32,
    pub message_type: u32,
    pub session_id: Vec<u8>,
    pub sequence_number: u64,
    pub correlation_id: Option<Vec<u8>>,
    pub body: Option<MessageBody>,
}

impl ControlMessage {
    pub fn new(
        message_type: MessageType,
        session_id: &[u8; 16],
        sequence_number: u64,
        correlation_id: Option<[u8; 16]>,
        body: Option<MessageBody>,
    ) -> (m: Self)
        ensures
            m.protocol_major == PROTOCOL_MAJOR,
            m.protocol_minor == PROTOCOL_MINOR,
            m.message_type == message_type.wire_code(),
            m.session_id@ == session_id@,
            m.sequence_number == sequence_number,
            correlation_id is None ==> m.correlation_id is None,
            correlation_id matches Some(c) ==> (m.correlation_id matches Some(v) && v@ == c@),
            m.body == body,
    {
        let mut sid: Vec<u8> = Vec::new();
        extend_from(&mut sid, session_id);
        let cid = match correlation_id {
            Some(c) => {
                let mut v: Vec<u8> = Vec::new();
                extend_from(&mut v, &c);
                Some(v)
            },
            None => None,
        };
        ControlMessage {
            protocol_major: PROTOCOL_MAJOR,
            protocol_minor: PROTOCOL_MINOR,
            message_type: message_type.code(),
            session_id: sid,
            sequence_number,
            correlation_id: cid,
            body,
        }
    }
}

/// Outcome of the size checks on an encoded control message.
pub open spec fn payload_fault(len: nat) -> Option<ControlCodecError> {
    if len == 0 {
        Some(ControlCodecError::ZeroLengthFrame)
    } else if len > MAX_CONTROL_FRAME_SIZE {
        Some(ControlCodecError::FrameTooLarge(len as usize))
    } else {
        None
    }
}

/// The frame for an encoded control message: its length in four bytes,
/// most significant first, then the encoding.
pub open spec fn framed(cbor: Seq<u8>) -> Seq<u8> {
    be_bytes(cbor.len(), 4) + cbor
}

/// Frames the CBOR encoding of a control message.
pub fn frame_control_payload(cbor_bytes: &[u8]) -> (r: Result<Vec<u8>, ControlCodecError>)
    ensures
        payload_fault(cbor_bytes@.len()) is Some ==> r == Err::<Vec<u8>, ControlCodecError>(
            payload_fault(cbor_bytes@.len())->0,
        ),
        payload_fault(cbor_bytes@.len()) is None ==> (r matches Ok(f) && f@ == framed(
            cbor_bytes@,
        )),
{
    if cbor_bytes.len() == 0 {
        return Err(ControlCodecError::ZeroLengthFrame);
    }
    if cbor_bytes.len() > MAX_CONTROL_FRAME_SIZE {
        return Err(ControlCodecError::FrameTooLarge(cbor_bytes.len()));
    }
    let mut out: Vec<u8> = Vec::new();
    push_be(&mut out, cbor_bytes.len() as u64, 4);
    extend_from(&mut out, cbor_bytes);
    Ok(out)
}

/// The size checks made on a received control payload before it is parsed.
pub fn check_control_payload(payload: &[u8]) -> (r: Result<(), ControlCodecError>)
    ensures
        payload_fault(payload@.len()) is Some ==> r == Err::<(), ControlCodecError>(
            payload_fault(payload@.len())->0,
        ),
        payload_fault(payload@.len()) is None ==> r is Ok,
{
    if payload.len() == 0 {
        return Err(ControlCodecError::ZeroLengthFrame);
    }
    if payload.len() > MAX_CONTROL_FRAME_SIZE {
        return Err(ControlCodecError::FrameTooLarge(payload.len()));
    }
    Ok(())
}

/// Accepts a parsed control message of this protocol's major version.
pub fn accept_control_message(msg: ControlMessage) -> (r: Result<ControlMessage, ControlCodecError>)
    ensures
        msg.protocol_major == PROTOCOL_MAJOR ==> r == Ok::<ControlMessage, ControlCodecError>(
            msg,
        ),
        msg.protocol_major != PROTOCOL_MAJOR ==> r == Err::<ControlMessage, ControlCodecError>(
            ControlCodecError::ProtocolMajorMismatch {
                expected: PROTOCOL_MAJOR,
                actual: msg.protocol_major,
            },
        ),
{
    if msg.protocol_major != PROTOCOL_MAJOR {
        return Err(
            ControlCodecError::ProtocolMajorMismatch {
                expected: PROTOCOL_MAJOR,
                actual: msg.protocol_major,
            },
        );
    }
    Ok(msg)
}

/// A frame's first four bytes give the length of what follows, and what
/// follows is the encoding that was framed, for every size the checks let
/// through.
pub proof fn frame_prefix_is_payload_length(cbor: Seq<u8>)
    requires
        payload_fault(cbor.len()) is None,
    ensures
        framed(cbor).len() == cbor.len() + 4,
        be_value(framed(cbor).subrange(0, 4)) == cbor.len(),
        framed(cbor).subrange(4, framed(cbor).len() as int) == cbor,
{
    lemma_be_bytes(cbor.len(), 4);
    lemma_pow256_values();
    assert(framed(cbor).subrange(0, 4) =~= be_bytes(cbor.len(), 4));
    assert(framed(cbor).subrange(4, framed(cbor).len() as int) =~= cbor);
}

} // verus!
