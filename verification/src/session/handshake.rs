//! The decisions of the session handshake, taken between the reads and
//! writes of the control stream.
//!
//! The host accepts one connection on the control port and waits for the
//! joiner's hello; it checks the joiner's proof, answers with its own hello
//! and proof, waits for `SessionReady` and acknowledges it.  The joiner sends
//! its hello, checks the host's proof, sends `SessionReady` and waits for the
//! acknowledgement.  The caller performs the stream I/O, draws the nonces
//! and supplies the CBOR encodings of the peer descriptions; each step here
//! says what to send next or why the handshake stops.

use vstd::prelude::*;
use crate::bytes::{be_value, read_be, lemma_be_value};
use crate::protocol::auth::{
    compute_host_proof, compute_joiner_proof, hmac_sha256, host_message, join_message,
    proof_accepted_iff_equal, proof_verdict, verify_host_proof, verify_joiner_proof, AuthError,
};
use crate::protocol::control::{
    Capabilities, ControlMessage, HelloPayload, MessageBody, MessageType, PeerInfo, SessionReady,
};
use crate::protocol::limits::{CONTROL_PORT, MAX_CONTROL_FRAME_SIZE, PROTOCOL_MAJOR, PROTOCOL_MINOR};
use crate::text::extend_from;

verus! {

/// Why a handshake stops.
#[derive(Debug)]
pub enum HandshakeError {
    /// A control frame announced a length of zero or above the frame limit.
    FrameLength(u64),
    /// The first connection arrived on another port than the control port.
    WrongPort(u16),
    /// A message of another kind arrived than the step expects.
    UnexpectedMessage { expected: MessageType, actual: u32 },
    /// A hello message without a hello body.
    InvalidHelloBody(MessageType),
    /// A hello whose nonce is not 32 bytes long.
    InvalidNonceLength(MessageType),
    /// The proof carried by a hello of this kind was rejected.
    ProofRejected(MessageType, AuthError),
    /// A proof could not be computed.
    ProofComputation(AuthError),
}

/// What a handshake hands over once both sides are ready: the control
/// stream, and what the peer said about itself.
pub struct HandshakeResult<S> {
    pub control_stream: S,
    pub peer_address: String,
    pub peer_info: PeerInfo,
    pub peer_capabilities: Capabilities,
}

/// Reads the four-byte big-endian length in front of a control frame and
/// accepts it when the payload may be read: more than zero bytes and no more
/// than the control frame limit.
pub fn control_frame_length(prefix: &[u8; 4]) -> (r: Result<usize, HandshakeError>)
    ensures
        (0 < be_value(prefix@) <= MAX_CONTROL_FRAME_SIZE) ==> r == Ok::<usize, HandshakeError>(
            be_value(prefix@) as usize,
        ),
        !(0 < be_value(prefix@) <= MAX_CONTROL_FRAME_SIZE) ==> r
            == Err::<usize, HandshakeError>(HandshakeError::FrameLength(be_value(prefix@) as u64)),
{
    let p: &[u8] = prefix;
    let v = read_be(p, 0, 4);
    proof {
        assert(p@.subrange(0, 4) =~= prefix@);
        lemma_be_value(prefix@);
    }
    if v == 0 || v > MAX_CONTROL_FRAME_SIZE as u64 {
        return Err(HandshakeError::FrameLength(v));
    }
    Ok(v as usize)
}

/// The host takes the joiner's connection only on the control port.
pub fn check_control_port(port: u16) -> (r: Result<(), HandshakeError>)
    ensures
        port == CONTROL_PORT ==> r is Ok,
        port != CONTROL_PORT ==> r == Err::<(), HandshakeError>(HandshakeError::WrongPort(port)),
{
    if port != CONTROL_PORT {
        return Err(HandshakeError::WrongPort(port));
    }
    Ok(())
}

/// Accepts a message of the expected kind.
pub fn expect_message(msg: &ControlMessage, expected: MessageType) -> (r: Result<(), HandshakeError>)
    ensures
        msg.message_type == expected.wire_code() ==> r is Ok,
        msg.message_type != expected.wire_code() ==> r == Err::<(), HandshakeError>(
            HandshakeError::UnexpectedMessage { expected, actual: msg.message_type },
        ),
{
    if msg.message_type != expected.code() {
        return Err(HandshakeError::UnexpectedMessage { expected, actual: msg.message_type });
    }
    Ok(())
}

/// Why a received message is not a usable hello of the expected kind, if
/// it is not.
pub open spec fn hello_fault(msg: ControlMessage, expected: MessageType) -> Option<HandshakeError> {
    if msg.message_type != expected.wire_code() {
        Some(HandshakeError::UnexpectedMessage { expected, actual: msg.message_type })
    } else {
        match msg.body {
            Some(MessageBody::Hello(b)) => if b.nonce@.len() != 32 {
                Some(HandshakeError::InvalidNonceLength(expected))
            } else {
                None
            },
            _ => Some(HandshakeError::InvalidHelloBody(expected)),
        }
    }
}

/// Takes the hello body out of a received message of the expected kind,
/// with its 32-byte nonce.
pub fn take_hello(msg: ControlMessage, expected: MessageType) -> (r: Result<
    HelloPayload,
    HandshakeError,
>)
    ensures
        hello_fault(msg, expected) is Some ==> r == Err::<HelloPayload, HandshakeError>(
            hello_fault(msg, expected)->0,
        ),
        hello_fault(msg, expected) is None ==> r == Ok::<HelloPayload, HandshakeError>(
            msg.body->0->Hello_0,
        ),
{
    if msg.message_type != expected.code() {
        return Err(HandshakeError::UnexpectedMessage { expected, actual: msg.message_type });
    }
    match msg.body {
        Some(MessageBody::Hello(b)) => {
            if b.nonce.len() != 32 {
                return Err(HandshakeError::InvalidNonceLength(expected));
            }
            Ok(b)
        },
        _ => Err(HandshakeError::InvalidHelloBody(expected)),
    }
}

/// `m` is a hello of kind `kind` in session `session_id`, with sequence
/// number `seq` and the given body fields.
pub open spec fn is_hello(
    m: ControlMessage,
    kind: MessageType,
    session_id: Seq<u8>,
    seq: u64,
    nonce: Seq<u8>,
    address: Seq<char>,
    info: PeerInfo,
    caps: Capabilities,
    proof: Seq<u8>,
) -> bool {
    &&& m.protocol_major == PROTOCOL_MAJOR
    &&& m.protocol_minor == PROTOCOL_MINOR
    &&& m.message_type == kind.wire_code()
    &&& m.session_id@ == session_id
    &&& m.sequence_number == seq
    &&& m.correlation_id is None
    &&& (m.body matches Some(MessageBody::Hello(b)) && b.nonce@ == nonce && b.tailcat_address@
        == address && b.peer_info == info && b.capabilities == caps && b.proof@ == proof)
}

/// `m` is the readiness message of kind `kind` (`SessionReady` or its
/// acknowledgement) in session `session_id`, with sequence number 2.
pub open spec fn is_ready(m: ControlMessage, kind: MessageType, session_id: Seq<u8>) -> bool {
    &&& m.protocol_major == PROTOCOL_MAJOR
    &&& m.protocol_minor == PROTOCOL_MINOR
    &&& m.message_type == kind.wire_code()
    &&& m.session_id@ == session_id
    &&& m.sequence_number == 2
    &&& m.correlation_id is None
    &&& m.body == Some(MessageBody::SessionReady(SessionReady { note: None }))
}

fn hello_message(
    kind: MessageType,
    session_id: &[u8; 16],
    nonce: &[u8; 32],
    address: &str,
    info: PeerInfo,
    caps: Capabilities,
    proof: &[u8; 32],
) -> (m: ControlMessage)
    ensures
        is_hello(m, kind, session_id@, 1, nonce@, address@, info, caps, proof@),
{
    let mut n: Vec<u8> = Vec::new();
    extend_from(&mut n, nonce);
    let mut p: Vec<u8> = Vec::new();
    extend_from(&mut p, proof);
    let body = HelloPayload {
        nonce: n,
        tailcat_address: address.to_string(),
        peer_info: info,
        capabilities: caps,
        proof: p,
    };
    ControlMessage::new(kind, session_id, 1, None, Some(MessageBody::Hello(body)))
}

/// The readiness message of kind `kind`, sequence number 2, without a note.
pub fn ready_message(kind: MessageType, session_id: &[u8; 16]) -> (m: ControlMessage)
    ensures
        is_ready(m, kind, session_id@),
{
    ControlMessage::new(
        kind,
        session_id,
        2,
        None,
        Some(MessageBody::SessionReady(SessionReady { note: None })),
    )
}

fn copy32(b: &[u8]) -> (a: [u8; 32])
    requires
        b@.len() == 32,
    ensures
        a@ == b@,
{
    let mut a = [0u8; 32];
    let mut i: usize = 0;
    while i < 32
        invariant
            i <= 32,
            b@.len() == 32,
            a@.len() == 32,
            forall|k: int| 0 <= k < i ==> a@[k] == b@[k],
        decreases 32 - i,
    {
        a[i] = b[i];
        i += 1;
    }
    assert(a@ =~= b@);
    a
}

/// The proof a joiner owes: the invite secret's tag over its session,
/// nonce, address and encoded description.
pub open spec fn joiner_proof(
    invite_secret: Seq<u8>,
    session_id: Seq<u8>,
    joiner_nonce: Seq<u8>,
    joiner_address: Seq<char>,
    info_cbor: Seq<u8>,
    caps_cbor: Seq<u8>,
) -> Seq<u8> {
    hmac_sha256(
        invite_secret,
        join_message(session_id, joiner_nonce, joiner_address, info_cbor, caps_cbor),
    )@
}

/// The proof a host owes: the invite secret's tag over the session, both
/// nonces, both addresses and its own encoded description.
pub open spec fn host_proof(
    invite_secret: Seq<u8>,
    session_id: Seq<u8>,
    joiner_nonce: Seq<u8>,
    host_nonce: Seq<u8>,
    host_address: Seq<char>,
    joiner_address: Seq<char>,
    info_cbor: Seq<u8>,
    caps_cbor: Seq<u8>,
) -> Seq<u8> {
    hmac_sha256(
        invite_secret,
        host_message(
            session_id,
            joiner_nonce,
            host_nonce,
            host_address,
            joiner_address,
            info_cbor,
            caps_cbor,
        ),
    )@
}

/// The joiner's first message: its hello, with sequence number 1 and its
/// proof.  `joiner_info_cbor` and `joiner_caps_cbor` are the CBOR encodings
/// of `joiner_info` and `joiner_caps`.
pub fn joiner_hello(
    invite_secret: &[u8; 32],
    session_id: &[u8; 16],
    joiner_nonce: &[u8; 32],
    joiner_address: &str,
    joiner_info: PeerInfo,
    joiner_caps: Capabilities,
    joiner_info_cbor: &[u8],
    joiner_caps_cbor: &[u8],
) -> (r: Result<ControlMessage, HandshakeError>)
    ensures
        r matches Ok(m) && is_hello(
            m,
            MessageType::ClientHello,
            session_id@,
            1,
            joiner_nonce@,
            joiner_address@,
            joiner_info,
            joiner_caps,
            joiner_proof(
                invite_secret@,
                session_id@,
                joiner_nonce@,
                joiner_address@,
                joiner_info_cbor@,
                joiner_caps_cbor@,
            ),
        ),
{
    let proof = match compute_joiner_proof(
        invite_secret,
        session_id,
        joiner_nonce,
        joiner_address,
        joiner_info_cbor,
        joiner_caps_cbor,
    ) {
        Ok(tag) => tag,
        Err(e) => return Err(HandshakeError::ProofComputation(e)),
    };
    Ok(
        hello_message(
            MessageType::ClientHello,
            session_id,
            joiner_nonce,
            joiner_address,
            joiner_info,
            joiner_caps,
            &proof,
        ),
    )
}

/// The host's answer to the joiner's hello: when the joiner's proof checks
/// out, the host's own hello with a fresh nonce, sequence number 1 and its
/// proof; otherwise the reason the proof was rejected.
/// `joiner_info_cbor` and `joiner_caps_cbor` encode the description in the
/// joiner's hello, `host_info_cbor` and `host_caps_cbor` encode `host_info`
/// and `host_caps`.
pub fn host_answer(
    invite_secret: &[u8; 32],
    session_id: &[u8; 16],
    joiner: &HelloPayload,
    joiner_info_cbor: &[u8],
    joiner_caps_cbor: &[u8],
    host_nonce: &[u8; 32],
    host_address: &str,
    host_info: PeerInfo,
    host_caps: Capabilities,
    host_info_cbor: &[u8],
    host_caps_cbor: &[u8],
) -> (r: Result<ControlMessage, HandshakeError>)
    requires
        joiner.nonce@.len() == 32,
    ensures
        ({
            let verdict = proof_verdict(
                joiner.proof@,
                hmac_sha256(
                    invite_secret@,
                    join_message(
                        session_id@,
                        joiner.nonce@,
                        joiner.tailcat_address@,
                        joiner_info_cbor@,
                        joiner_caps_cbor@,
                    ),
                ),
            );
            &&& verdict is Err ==> r == Err::<ControlMessage, HandshakeError>(
                HandshakeError::ProofRejected(MessageType::ClientHello, verdict->Err_0),
            )
            &&& verdict is Ok ==> (r matches Ok(m) && is_hello(
                m,
                MessageType::ServerHello,
                session_id@,
                1,
                host_nonce@,
                host_address@,
                host_info,
                host_caps,
                host_proof(
                    invite_secret@,
                    session_id@,
                    joiner.nonce@,
                    host_nonce@,
                    host_address@,
                    joiner.tailcat_address@,
                    host_info_cbor@,
                    host_caps_cbor@,
                ),
            ))
        }),
{
    let joiner_nonce = copy32(&joiner.nonce);
    match verify_joiner_proof(
        invite_secret,
        session_id,
        &joiner_nonce,
        joiner.tailcat_address.as_str(),
        joiner_info_cbor,
        joiner_caps_cbor,
        &joiner.proof,
    ) {
        Ok(()) => {},
        Err(e) => return Err(HandshakeError::ProofRejected(MessageType::ClientHello, e)),
    }
    let proof = match compute_host_proof(
        invite_secret,
        session_id,
        &joiner_nonce,
        host_nonce,
        host_address,
        joiner.tailcat_address.as_str(),
        host_info_cbor,
        host_caps_cbor,
    ) {
        Ok(tag) => tag,
        Err(e) => return Err(HandshakeError::ProofComputation(e)),
    };
    Ok(
        hello_message(
            MessageType::ServerHello,
            session_id,
            host_nonce,
            host_address,
            host_info,
            host_caps,
            &proof,
        ),
    )
}

/// The joiner's check of the host's hello: when the host's proof checks
/// out, the `SessionReady` message to send; otherwise the reason the proof
/// was rejected.  `host_info_cbor` and `host_caps_cbor` encode the
/// description in the host's hello; `host_address` is the address the
/// invitation names.
pub fn joiner_confirm(
    invite_secret: &[u8; 32],
    session_id: &[u8; 16],
    joiner_nonce: &[u8; 32],
    joiner_address: &str,
    host: &HelloPayload,
    host_address: &str,
    host_info_cbor: &[u8],
    host_caps_cbor: &[u8],
) -> (r: Result<ControlMessage, HandshakeError>)
    requires
        host.nonce@.len() == 32,
    ensures
        ({
            let verdict = proof_verdict(
                host.proof@,
                hmac_sha256(
                    invite_secret@,
                    host_message(
                        session_id@,
                        joiner_nonce@,
                        host.nonce@,
                        host_address@,
                        joiner_address@,
                        host_info_cbor@,
                        host_caps_cbor@,
                    ),
                ),
            );
            &&& verdict is Err ==> r == Err::<ControlMessage, HandshakeError>(
                HandshakeError::ProofRejected(MessageType::ServerHello, verdict->Err_0),
            )
            &&& verdict is Ok ==> (r matches Ok(m) && is_ready(
                m,
                MessageType::SessionReady,
                session_id@,
            ))
        }),
{
    let host_nonce = copy32(&host.nonce);
    match verify_host_proof(
        invite_secret,
        session_id,
        joiner_nonce,
        &host_nonce,
        host_address,
        joiner_address,
        host_info_cbor,
        host_caps_cbor,
        &host.proof,
    ) {
        Ok(()) => {},
        Err(e) => return Err(HandshakeError::ProofRejected(MessageType::ServerHello, e)),
    }
    Ok(ready_message(MessageType::SessionReady, session_id))
}

/// A hello that one side builds is taken whole by the other side, and when
/// both sides hold the same invite secret and see the same addresses and
/// encodings, each accepts the other's proof.
pub proof fn peers_sharing_the_secret_accept_each_other(
    kind: MessageType,
    m: ControlMessage,
    invite_secret: Seq<u8>,
    session_id: Seq<u8>,
    joiner_nonce: Seq<u8>,
    host_nonce: Seq<u8>,
    joiner_address: Seq<char>,
    host_address: Seq<char>,
    info: PeerInfo,
    caps: Capabilities,
    joiner_info_cbor: Seq<u8>,
    joiner_caps_cbor: Seq<u8>,
    host_info_cbor: Seq<u8>,
    host_caps_cbor: Seq<u8>,
    nonce: Seq<u8>,
    address: Seq<char>,
    proof: Seq<u8>,
)
    requires
        is_hello(m, kind, session_id, 1, nonce, address, info, caps, proof),
        nonce.len() == 32,
    ensures
        hello_fault(m, kind) is None,
        m.body->0->Hello_0.nonce@ == nonce,
        m.body->0->Hello_0.tailcat_address@ == address,
        m.body->0->Hello_0.peer_info == info,
        m.body->0->Hello_0.capabilities == caps,
        m.body->0->Hello_0.proof@ == proof,
        proof_verdict(
            joiner_proof(
                invite_secret,
                session_id,
                joiner_nonce,
                joiner_address,
                joiner_info_cbor,
                joiner_caps_cbor,
            ),
            hmac_sha256(
                invite_secret,
                join_message(
                    session_id,
                    joiner_nonce,
                    joiner_address,
                    joiner_info_cbor,
                    joiner_caps_cbor,
                ),
            ),
        ) is Ok,
        proof_verdict(
            host_proof(
                invite_secret,
                session_id,
                joiner_nonce,
                host_nonce,
                host_address,
                joiner_address,
                host_info_cbor,
                host_caps_cbor,
            ),
            hmac_sha256(
                invite_secret,
                host_message(
                    session_id,
                    joiner_nonce,
                    host_nonce,
                    host_address,
                    joiner_address,
                    host_info_cbor,
                    host_caps_cbor,
                ),
            ),
        ) is Ok,
{
    proof_accepted_iff_equal(
        joiner_proof(
            invite_secret,
            session_id,
            joiner_nonce,
            joiner_address,
            joiner_info_cbor,
            joiner_caps_cbor,
        ),
        hmac_sha256(
            invite_secret,
            join_message(session_id, joiner_nonce, joiner_address, joiner_info_cbor, joiner_caps_cbor),
        ),
    );
    proof_accepted_iff_equal(
        host_proof(
            invite_secret,
            session_id,
            joiner_nonce,
            host_nonce,
            host_address,
            joiner_address,
            host_info_cbor,
            host_caps_cbor,
        ),
        hmac_sha256(
            invite_secret,
            host_message(
                session_id,
                joiner_nonce,
                host_nonce,
                host_address,
                joiner_address,
                host_info_cbor,
                host_caps_cbor,
            ),
        ),
    );
}

} // verus!
