//! Binary envelope used by every WebView bridge: a fixed 32-byte header
//! followed by an opaque payload.

use vstd::prelude::*;
use crate::bytes::{le_bytes, le_value, lemma_le_bytes, lemma_le_value, lemma_pow256_values, push_le, read_le};
use crate::session::ui::UiQrBitmap;
use crate::text::extend_from;

verus! {

/// `PNLT`.
pub const MAGIC: [u8; 4] = [0x50, 0x4e, 0x4c, 0x54];
pub const PROTOCOL_VERSION: u8 = 2;
pub const HEADER_LEN: usize = 32;
/// 8 MiB.
pub const MAX_PAYLOAD_LEN: usize = 8388608;

#[derive(Debug, Clone, Copy, PartialEq, Eq, Structural)]
pub enum MessageKind {
    Request,
    Response,
    Event,
    Subscribe,
    Unsubscribe,
    WaitEvent,
}

#[derive(Debug, Clone, Copy, PartialEq, Eq, Structural)]
pub enum Opcode {
    Snapshot,
    CreateInvite,
    Join,
    SendText,
    SendFiles,
    PickAndSendFiles,
    SaveText,
    QrCode,
    CancelTransfer,
    Disconnect,
    OpenReceived,
    Subscribe,
    Unsubscribe,
    WaitEvent,
}

#[derive(Debug, PartialEq, Eq)]
pub enum IpcError {
    TruncatedHeader(usize),
    InvalidMagic,
    UnsupportedVersion(u8),
    UnknownKind(u8),
    UnknownOpcode(u16),
    PayloadTooLarge(usize),
    LengthMismatch { expected: usize, actual: usize },
}

#[derive(Debug, Clone, PartialEq, Eq)]
pub struct Frame {
    pub kind: MessageKind,
    pub opcode: Opcode,
    pub request_id: u64,
    pub sequence: u64,
    pub status: u32,
    pub payload: Vec<u8>,
}

/// Wire number of a message kind.
pub open spec fn kind_code(k: MessageKind) -> u8 {
    match k {
        MessageKind::Request => 1,
        MessageKind::Response => 2,
        MessageKind::Event => 3,
        MessageKind::Subscribe => 4,
        MessageKind::Unsubscribe => 5,
        MessageKind::WaitEvent => 6,
    }
}

/// Wire number of an opcode.
pub open spec fn opcode_code(o: Opcode) -> u16 {
    match o {
        Opcode::Snapshot => 1,
        Opcode::CreateInvite => 2,
        Opcode::Join => 3,
        Opcode::SendText => 4,
        Opcode::SendFiles => 5,
        Opcode::PickAndSendFiles => 6,
        Opcode::SaveText => 7,
        Opcode::QrCode => 8,
        Opcode::CancelTransfer => 9,
        Opcode::Disconnect => 10,
        Opcode::OpenReceived => 11,
        Opcode::Subscribe => 12,
        Opcode::Unsubscribe => 13,
        Opcode::WaitEvent => 14,
    }
}

impl MessageKind {
    pub fn code(self) -> (c: u8)
        ensures
            c == kind_code(self),
    {
        match self {
            MessageKind::Request => 1,
            MessageKind::Response => 2,
            MessageKind::Event => 3,
            MessageKind::Subscribe => 4,
            MessageKind::Unsubscribe => 5,
            MessageKind::WaitEvent => 6,
        }
    }

    /// The kind with wire number `value`.
    pub fn from_code(value: u8) -> (r: Result<Self, IpcError>)
        ensures
            1 <= value <= 6 ==> (r matches Ok(k) && kind_code(k) == value),
            !(1 <= value <= 6) ==> r == Err::<Self, IpcError>(IpcError::UnknownKind(value)),
    {
        match value {
            1 => Ok(MessageKind::Request),
            2 => Ok(MessageKind::Response),
            3 => Ok(MessageKind::Event),
            4 => Ok(MessageKind::Subscribe),
            5 => Ok(MessageKind::Unsubscribe),
            6 => Ok(MessageKind::WaitEvent),
            _ => Err(IpcError::UnknownKind(value)),
        }
    }
}

impl Opcode {
    pub fn code(self) -> (c: u16)
        ensures
            c == opcode_code(self),
    {
        match self {
            Opcode::Snapshot => 1,
            Opcode::CreateInvite => 2,
            Opcode::Join => 3,
            Opcode::SendText => 4,
            Opcode::SendFiles => 5,
            Opcode::PickAndSendFiles => 6,
            Opcode::SaveText => 7,
            Opcode::QrCode => 8,
            Opcode::CancelTransfer => 9,
            Opcode::Disconnect => 10,
            Opcode::OpenReceived => 11,
            Opcode::Subscribe => 12,
            Opcode::Unsubscribe => 13,
            Opcode::WaitEvent => 14,
        }
    }

    /// The opcode with wire number `value`.
    pub fn from_code(value: u16) -> (r: Result<Self, IpcError>)
        ensures
            1 <= value <= 14 ==> (r matches Ok(o) && opcode_code(o) == value),
            !(1 <= value <= 14) ==> r == Err::<Self, IpcError>(IpcError::UnknownOpcode(value)),
    {
        match value {
            1 => Ok(Opcode::Snapshot),
            2 => Ok(Opcode::CreateInvite),
            3 => Ok(Opcode::Join),
            4 => Ok(Opcode::SendText),
            5 => Ok(Opcode::SendFiles),
            6 => Ok(Opcode::PickAndSendFiles),
            7 => Ok(Opcode::SaveText),
            8 => Ok(Opcode::QrCode),
            9 => Ok(Opcode::CancelTransfer),
            10 => Ok(Opcode::Disconnect),
            11 => Ok(Opcode::OpenReceived),
            12 => Ok(Opcode::Subscribe),
            13 => Ok(Opcode::Unsubscribe),
            14 => Ok(Opcode::WaitEvent),
            _ => Err(IpcError::UnknownOpcode(value)),
        }
    }
}

pub open spec fn magic_seq() -> Seq<u8> {
    seq![0x50u8, 0x4eu8, 0x4cu8, 0x54u8]
}

/// The bytes of an encoded frame.
pub open spec fn frame_bytes(f: Frame) -> Seq<u8> {
    magic_seq() + seq![PROTOCOL_VERSION, kind_code(f.kind)] + le_bytes(
        opcode_code(f.opcode) as nat,
        2,
    ) + le_bytes(f.request_id as nat, 8) + le_bytes(f.sequence as nat, 8) + le_bytes(
        f.payload@.len(),
        4,
    ) + le_bytes(f.status as nat, 4) + f.payload@
}

/// Why a byte string is refused as a frame, in the order the checks run.
pub enum FrameFault {
    Truncated,
    Magic,
    Version,
    Kind,
    Op,
    TooLarge,
    Length,
}

pub open spec fn payload_len_field(b: Seq<u8>) -> nat {
    le_value(b.subrange(24, 28))
}

pub open spec fn frame_fault(b: Seq<u8>) -> Option<FrameFault> {
    if b.len() < HEADER_LEN {
        Some(FrameFault::Truncated)
    } else if b.subrange(0, 4) != magic_seq() {
        Some(FrameFault::Magic)
    } else if b[4] != PROTOCOL_VERSION {
        Some(FrameFault::Version)
    } else if !(1 <= b[5] <= 6) {
        Some(FrameFault::Kind)
    } else if !(1 <= le_value(b.subrange(6, 8)) <= 14) {
        Some(FrameFault::Op)
    } else if payload_len_field(b) > MAX_PAYLOAD_LEN {
        Some(FrameFault::TooLarge)
    } else if b.len() != HEADER_LEN + payload_len_field(b) {
        Some(FrameFault::Length)
    } else {
        None
    }
}

pub open spec fn frame_fault_error(e: IpcError, f: FrameFault, b: Seq<u8>) -> bool {
    match f {
        FrameFault::Truncated => e == IpcError::TruncatedHeader(b.len() as usize),
        FrameFault::Magic => e == IpcError::InvalidMagic,
        FrameFault::Version => e == IpcError::UnsupportedVersion(b[4]),
        FrameFault::Kind => e == IpcError::UnknownKind(b[5]),
        FrameFault::Op => e == IpcError::UnknownOpcode(le_value(b.subrange(6, 8)) as u16),
        FrameFault::TooLarge => e == IpcError::PayloadTooLarge(payload_len_field(b) as usize),
        FrameFault::Length => e == (IpcError::LengthMismatch {
            expected: (HEADER_LEN + payload_len_field(b)) as usize,
            actual: b.len() as usize,
        }),
    }
}

/// The frame that a fault-free byte string carries.
pub open spec fn decoded_frame(f: Frame, b: Seq<u8>) -> bool {
    &&& kind_code(f.kind) == b[5]
    &&& opcode_code(f.opcode) == le_value(b.subrange(6, 8))
    &&& f.request_id == le_value(b.subrange(8, 16))
    &&& f.sequence == le_value(b.subrange(16, 24))
    &&& f.status == le_value(b.subrange(28, 32))
    &&& f.payload@ == b.subrange(32, b.len() as int)
}

fn push_all(out: &mut Vec<u8>, src: &[u8])
    ensures
        final(out)@ == old(out)@ + src@,
{
    let mut i: usize = 0;
    while i < src.len()
        invariant
            i <= src.len(),
            out@ == old(out)@ + src@.take(i as int),
        decreases src.len() - i,
    {
        out.push(src[i]);
        assert(src@.take(i + 1) == src@.take(i as int).push(src@[i as int]));
        i += 1;
    }
    assert(src@.take(src.len() as int) == src@);
}

impl Frame {
    /// A request with sequence and status 0.
    pub fn request(opcode: Opcode, request_id: u64, payload: Vec<u8>) -> (f: Self)
        ensures
            f == (Frame { kind: MessageKind::Request, opcode, request_id, sequence: 0, status: 0, payload }),
    {
        Self { kind: MessageKind::Request, opcode, request_id, sequence: 0, status: 0, payload }
    }

    /// The response to `request`: same opcode, request id and sequence.
    pub fn response(request: &Self, status: u32, payload: Vec<u8>) -> (f: Self)
        ensures
            f == (Frame {
                kind: MessageKind::Response,
                opcode: request.opcode,
                request_id: request.request_id,
                sequence: request.sequence,
                status,
                payload,
            }),
    {
        Self {
            kind: MessageKind::Response,
            opcode: request.opcode,
            request_id: request.request_id,
            sequence: request.sequence,
            status,
            payload,
        }
    }

    pub fn encode(&self) -> (res: Result<Vec<u8>, IpcError>)
        ensures
            self.payload@.len() > MAX_PAYLOAD_LEN ==> res == Err::<Vec<u8>, IpcError>(
                IpcError::PayloadTooLarge(self.payload@.len() as usize),
            ),
            self.payload@.len() <= MAX_PAYLOAD_LEN ==> (res matches Ok(out) && out@ == frame_bytes(
                *self,
            )),
    {
        if self.payload.len() > MAX_PAYLOAD_LEN {
            return Err(IpcError::PayloadTooLarge(self.payload.len()));
        }
        let mut output: Vec<u8> = Vec::new();
        push_all(&mut output, &MAGIC);
        output.push(PROTOCOL_VERSION);
        output.push(self.kind.code());
        push_le(&mut output, self.opcode.code() as u64, 2);
        push_le(&mut output, self.request_id, 8);
        push_le(&mut output, self.sequence, 8);
        push_le(&mut output, self.payload.len() as u64, 4);
        push_le(&mut output, self.status as u64, 4);
        push_all(&mut output, &self.payload);
        proof {
            assert(MAGIC@ == magic_seq());
            assert(output@ =~= frame_bytes(*self));
        }
        Ok(output)
    }

    pub fn decode(input: &[u8]) -> (res: Result<Self, IpcError>)
        ensures
            match frame_fault(input@) {
                None => res matches Ok(f) && decoded_frame(f, input@),
                Some(fault) => res matches Err(e) && frame_fault_error(e, fault, input@),
            },
    {
        if input.len() < HEADER_LEN {
            return Err(IpcError::TruncatedHeader(input.len()));
        }
        let magic_ok = input[0] == MAGIC[0] && input[1] == MAGIC[1] && input[2] == MAGIC[2]
            && input[3] == MAGIC[3];
        proof {
            if magic_ok {
                assert(input@.subrange(0, 4) =~= magic_seq());
            } else if input@.subrange(0, 4) == magic_seq() {
                assert(input@.subrange(0, 4)[0] == input@[0]);
                assert(input@.subrange(0, 4)[1] == input@[1]);
                assert(input@.subrange(0, 4)[2] == input@[2]);
                assert(input@.subrange(0, 4)[3] == input@[3]);
            }
        }
        if !magic_ok {
            return Err(IpcError::InvalidMagic);
        }
        if input[4] != PROTOCOL_VERSION {
            return Err(IpcError::UnsupportedVersion(input[4]));
        }
        let kind = MessageKind::from_code(input[5])?;
        proof {
            lemma_le_value(input@.subrange(6, 8));
            lemma_le_value(input@.subrange(24, 28));
            lemma_le_value(input@.subrange(28, 32));
            lemma_pow256_values();
        }
        let op = read_le(input, 6, 2) as u16;
        let opcode = Opcode::from_code(op)?;
        let request_id = read_le(input, 8, 8);
        let sequence = read_le(input, 16, 8);
        let payload_len = read_le(input, 24, 4) as usize;
        if payload_len > MAX_PAYLOAD_LEN {
            return Err(IpcError::PayloadTooLarge(payload_len));
        }
        let expected = HEADER_LEN + payload_len;
        if input.len() != expected {
            return Err(IpcError::LengthMismatch { expected, actual: input.len() });
        }
        let status = read_le(input, 28, 4) as u32;
        let payload = crate::text::sub_vec(input, HEADER_LEN, input.len());
        Ok(Self { kind, opcode, request_id, sequence, status, payload })
    }
}

/// Decoding an encoded frame whose payload is within the limit gives back
/// the frame.
pub proof fn frame_roundtrip(f: Frame)
    requires
        f.payload@.len() <= MAX_PAYLOAD_LEN,
    ensures
        frame_fault(frame_bytes(f)) is None,
        decoded_frame(f, frame_bytes(f)),
{
    let b = frame_bytes(f);
    lemma_pow256_values();
    lemma_le_bytes(opcode_code(f.opcode) as nat, 2);
    lemma_le_bytes(f.request_id as nat, 8);
    lemma_le_bytes(f.sequence as nat, 8);
    lemma_le_bytes(f.payload@.len(), 4);
    lemma_le_bytes(f.status as nat, 4);
    assert(b.subrange(0, 4) =~= magic_seq());
    assert(b.subrange(6, 8) =~= le_bytes(opcode_code(f.opcode) as nat, 2));
    assert(b.subrange(8, 16) =~= le_bytes(f.request_id as nat, 8));
    assert(b.subrange(16, 24) =~= le_bytes(f.sequence as nat, 8));
    assert(b.subrange(24, 28) =~= le_bytes(f.payload@.len(), 4));
    assert(b.subrange(28, 32) =~= le_bytes(f.status as nat, 4));
    assert(b.subrange(32, b.len() as int) =~= f.payload@);
}

/// An accepted byte string is exactly the encoding of the frame it carries.
pub proof fn frame_reencode(f: Frame, b: Seq<u8>)
    requires
        frame_fault(b) is None,
        decoded_frame(f, b),
    ensures
        frame_bytes(f) == b,
{
    lemma_pow256_values();
    lemma_le_value(b.subrange(6, 8));
    lemma_le_value(b.subrange(8, 16));
    lemma_le_value(b.subrange(16, 24));
    lemma_le_value(b.subrange(24, 28));
    lemma_le_value(b.subrange(28, 32));
    assert(b.subrange(24, 28) == le_bytes(f.payload@.len(), 4));
    assert(b =~= b.subrange(0, 4) + seq![b[4], b[5]] + b.subrange(6, 8) + b.subrange(8, 16)
        + b.subrange(16, 24) + b.subrange(24, 28) + b.subrange(28, 32) + b.subrange(
        32,
        b.len() as int,
    ));
    assert(frame_bytes(f) =~= b);
}

/// Status of a response that succeeded.
pub const STATUS_OK: u32 = 0;
/// Status of a response that carries an error.
pub const STATUS_ERROR: u32 = 1;

/// The bytes of a QR bitmap in a response: width and height, four bytes
/// each, least significant first, then the pixels.
pub open spec fn qr_payload(bitmap: UiQrBitmap) -> Seq<u8> {
    le_bytes(bitmap.width as nat, 4) + le_bytes(bitmap.height as nat, 4) + bitmap.rgba_pixels@
}

/// The successful answer to a QR request.
pub fn qr_response(request: &Frame, bitmap: UiQrBitmap) -> (f: Frame)
    ensures
        f.kind == MessageKind::Response,
        f.opcode == request.opcode,
        f.request_id == request.request_id,
        f.sequence == request.sequence,
        f.status == STATUS_OK,
        f.payload@ == qr_payload(bitmap),
{
    let mut payload: Vec<u8> = Vec::new();
    push_le(&mut payload, bitmap.width as u64, 4);
    push_le(&mut payload, bitmap.height as u64, 4);
    extend_from(&mut payload, &bitmap.rgba_pixels);
    assert(payload@ =~= qr_payload(bitmap));
    Frame::response(request, STATUS_OK, payload)
}

// ---------------------------------------------------------------------------
// Waiting for events on behalf of the interface.
// ---------------------------------------------------------------------------

/// At most this many events go out in one answer.
pub const MAX_EVENT_BATCH: usize = 32;

/// How a request to wait for events is answered.
#[derive(Debug, Clone, Copy, PartialEq, Eq, Structural)]
pub enum WaitAction {
    /// The subscription was closed: answer with an empty frame.
    Closed,
    /// Events the subscriber missed are gone: replace the subscription and
    /// answer with a snapshot at least as new as `gap_sequence`.
    Resubscribe { gap_sequence: u64 },
    /// Answer with a snapshot taken at `sequence`.
    Snapshot { sequence: u64 },
    /// Answer with the first `count` retained events newer than the
    /// subscriber's cursor.
    Replay { count: usize },
    /// Wait for the next published event.
    Wait,
}

/// The answer to a wait request.  `subscribed` says whether the subscriber
/// already had a subscription; `history` is what the backend's replay from
/// `last_sequence` gave: the number of retained newer events, or the
/// sequence of the snapshot that reported a gap; `snapshot_sequence` is that
/// of the snapshot taken when a new subscription was made.
pub open spec fn wait_plan(
    closed: bool,
    subscribed: bool,
    last_sequence: u64,
    history: Result<usize, u64>,
    snapshot_sequence: u64,
) -> WaitAction {
    if closed {
        WaitAction::Closed
    } else if subscribed {
        match history {
            Err(gap) => WaitAction::Resubscribe { gap_sequence: gap },
            Ok(_) => WaitAction::Wait,
        }
    } else {
        match history {
            Err(gap) => WaitAction::Snapshot { sequence: gap },
            Ok(n) => if n > 0 {
                WaitAction::Replay {
                    count: if n <= MAX_EVENT_BATCH {
                        n
                    } else {
                        MAX_EVENT_BATCH
                    },
                }
            } else if snapshot_sequence > last_sequence {
                WaitAction::Snapshot { sequence: snapshot_sequence }
            } else {
                WaitAction::Wait
            },
        }
    }
}

/// Decides how to answer a wait request, before any event is awaited.
pub fn wait_decision(
    closed: bool,
    subscribed: bool,
    last_sequence: u64,
    history: Result<usize, u64>,
    snapshot_sequence: u64,
) -> (a: WaitAction)
    ensures
        a == wait_plan(closed, subscribed, last_sequence, history, snapshot_sequence),
        a matches WaitAction::Replay { count } ==> 0 < count <= MAX_EVENT_BATCH,
{
    if closed {
        return WaitAction::Closed;
    }
    if subscribed {
        return match history {
            Err(gap) => WaitAction::Resubscribe { gap_sequence: gap },
            Ok(_) => WaitAction::Wait,
        };
    }
    match history {
        Err(gap) => WaitAction::Snapshot { sequence: gap },
        Ok(n) => if n > 0 {
            WaitAction::Replay { count: if n <= MAX_EVENT_BATCH { n } else { MAX_EVENT_BATCH } }
        } else if snapshot_sequence > last_sequence {
            WaitAction::Snapshot { sequence: snapshot_sequence }
        } else {
            WaitAction::Wait
        },
    }
}

/// The sequence of the snapshot sent after a subscription was replaced:
/// never older than the snapshot that reported the gap.
pub fn resubscribe_sequence(replaced: u64, gap_sequence: u64) -> (s: u64)
    ensures
        s == if replaced >= gap_sequence {
            replaced
        } else {
            gap_sequence
        },
{
    if replaced >= gap_sequence {
        replaced
    } else {
        gap_sequence
    }
}

// ---------------------------------------------------------------------------
// Routing a request from the interface.
// ---------------------------------------------------------------------------

/// The error answered to a frame of a kind the backend does not serve.
pub const INVALID_KIND_MESSAGE: &'static str = "invalid IPC request kind";

/// Where a frame from the interface goes.
#[derive(Debug, Clone, Copy, PartialEq, Eq, Structural)]
pub enum Route {
    /// Answer with the error `INVALID_KIND_MESSAGE`.
    InvalidKind,
    /// Make or keep the subscription and answer with a snapshot.
    Subscribe,
    /// Wait for events on behalf of the subscription.
    WaitEvent,
    /// Drop the subscription, if it has an id, and answer with an empty frame.
    Unsubscribe,
    /// Run the operation `opcode` names.
    Operation(Opcode),
}

/// The route of a frame of `kind` carrying `opcode`.  Subscribing, waiting
/// and unsubscribing are chosen by the kind or by the opcode, in that order
/// of precedence; responses and events are refused.
pub open spec fn route_of(kind: MessageKind, opcode: Opcode) -> Route {
    if !(kind is Request || kind is Subscribe || kind is Unsubscribe || kind is WaitEvent) {
        Route::InvalidKind
    } else if kind is Subscribe || opcode is Subscribe {
        Route::Subscribe
    } else if kind is WaitEvent || opcode is WaitEvent {
        Route::WaitEvent
    } else if kind is Unsubscribe || opcode is Unsubscribe {
        Route::Unsubscribe
    } else {
        Route::Operation(opcode)
    }
}

/// Routes a frame from the interface.  An operation is never one of the
/// subscription opcodes.
pub fn route(kind: MessageKind, opcode: Opcode) -> (r: Route)
    ensures
        r == route_of(kind, opcode),
        r matches Route::Operation(op) ==> !(op is Subscribe || op is Unsubscribe || op is WaitEvent),
{
    let served = match kind {
        MessageKind::Request | MessageKind::Subscribe | MessageKind::Unsubscribe | MessageKind::WaitEvent => true,
        MessageKind::Response | MessageKind::Event => false,
    };
    if !served {
        return Route::InvalidKind;
    }
    if matches!(kind, MessageKind::Subscribe) || matches!(opcode, Opcode::Subscribe) {
        Route::Subscribe
    } else if matches!(kind, MessageKind::WaitEvent) || matches!(opcode, Opcode::WaitEvent) {
        Route::WaitEvent
    } else if matches!(kind, MessageKind::Unsubscribe) || matches!(opcode, Opcode::Unsubscribe) {
        Route::Unsubscribe
    } else {
        Route::Operation(opcode)
    }
}

} // verus!
