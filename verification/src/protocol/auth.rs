//! Handshake proofs: each side shows that it holds the invitation secret by
//! an HMAC-SHA256 over the session, both nonces, the listener addresses and
//! the CBOR encodings of its peer description and capabilities.

use vstd::prelude::*;
use vstd::utf8::encode_utf8;
use hmac::{Hmac, Mac};
use sha2::Sha256;
use subtle::ConstantTimeEq;
use crate::bytes::{be_bytes, lemma_be_bytes, push_be};
use crate::text::extend_from;

verus! {

#[derive(Debug)]
pub enum AuthError {
    Init(String),
    Serialization(String),
    InvalidProofLength(usize),
    VerificationFailed,
}

/// An HMAC-SHA256 tag.
pub type Tag = [u8; 32];

/// A tag, or why none could be computed.
pub type TagResult = Result<Tag, AuthError>;

/// The HMAC-SHA256 tag of `message` under `key`.
pub uninterp spec fn hmac_sha256(key: Seq<u8>, message: Seq<u8>) -> Tag;

/// HMAC-SHA256 through the `hmac` and `sha2` crates: `Hmac::<Sha256>`'s
/// `new_from_slice`, one `update` with the whole message, and `finalize`.
/// Claimed: the tag is `hmac_sha256(key, message)`, and the call succeeds;
/// the crate's `new_from_slice` accepts keys of every length (longer ones
/// are hashed first), so its error arm is never taken.
#[verifier::external_body]
fn hmac_sha256_tag(key: &[u8], message: &[u8]) -> (r: TagResult)
    ensures
        r == TagResult::Ok(hmac_sha256(key@, message@)),
{
    match <Hmac<Sha256> as Mac>::new_from_slice(key) {
        Ok(mut mac) => {
            mac.update(message);
            Ok(mac.finalize().into_bytes().into())
        },
        Err(e) => Err(AuthError::Init(e.to_string())),
    }
}

/// `subtle::ConstantTimeEq::ct_eq` on byte slices, turned into a `bool`.
/// Claimed: true exactly when both slices have the same length and bytes.
#[verifier::external_body]
fn constant_time_eq(a: &[u8], b: &[u8]) -> (r: bool)
    ensures
        r == (a@ == b@),
{
    a.ct_eq(b).into()
}

/// A listener address as the proof covers it: its UTF-8 length in four
/// bytes, most significant first, then the UTF-8 bytes.
pub open spec fn address_field(addr: Seq<char>) -> Seq<u8> {
    be_bytes(encode_utf8(addr).len(), 4) + encode_utf8(addr)
}

/// What the joiner's proof authenticates.
pub open spec fn join_message(
    session_id: Seq<u8>,
    joiner_nonce: Seq<u8>,
    joiner_addr: Seq<char>,
    peer_info_cbor: Seq<u8>,
    capabilities_cbor: Seq<u8>,
) -> Seq<u8> {
    encode_utf8("tailsend/join/v1"@) + session_id + joiner_nonce + address_field(joiner_addr)
        + peer_info_cbor + capabilities_cbor
}

/// What the host's proof authenticates.
pub open spec fn host_message(
    session_id: Seq<u8>,
    joiner_nonce: Seq<u8>,
    host_nonce: Seq<u8>,
    host_addr: Seq<char>,
    joiner_addr: Seq<char>,
    peer_info_cbor: Seq<u8>,
    capabilities_cbor: Seq<u8>,
) -> Seq<u8> {
    encode_utf8("tailsend/host/v1"@) + session_id + joiner_nonce + host_nonce + address_field(
        host_addr,
    ) + address_field(joiner_addr) + peer_info_cbor + capabilities_cbor
}

/// Where the fields of the host's proof message lie: after the domain tag
/// come the session id, the joiner's nonce and the host's nonce, then the
/// host's address (its four-byte length, most significant first, and its
/// UTF-8 bytes), then the joiner's address the same way, then the peer
/// description and the capabilities.  A reader of the message finds each
/// field at its place, for every input.
pub proof fn host_message_layout(
    session_id: Seq<u8>,
    joiner_nonce: Seq<u8>,
    host_nonce: Seq<u8>,
    host_addr: Seq<char>,
    joiner_addr: Seq<char>,
    peer_info_cbor: Seq<u8>,
    capabilities_cbor: Seq<u8>,
)
    requires
        session_id.len() == 16,
        joiner_nonce.len() == 32,
        host_nonce.len() == 32,
    ensures
        ({
            let m = host_message(
                session_id,
                joiner_nonce,
                host_nonce,
                host_addr,
                joiner_addr,
                peer_info_cbor,
                capabilities_cbor,
            );
            let tag = encode_utf8("tailsend/host/v1"@);
            let h = encode_utf8(host_addr);
            let j = encode_utf8(joiner_addr);
            let t = tag.len() as int;
            let o = t + 80;
            let hl = h.len() as int;
            let jl = j.len() as int;
            &&& m.len() == o + 8 + hl + jl + peer_info_cbor.len() + capabilities_cbor.len()
            &&& m.subrange(0, t) == tag
            &&& m.subrange(t, t + 16) == session_id
            &&& m.subrange(t + 16, t + 48) == joiner_nonce
            &&& m.subrange(t + 48, o) == host_nonce
            &&& m.subrange(o, o + 4) == be_bytes(h.len(), 4)
            &&& m.subrange(o + 4, o + 4 + hl) == h
            &&& m.subrange(o + 4 + hl, o + 8 + hl) == be_bytes(j.len(), 4)
            &&& m.subrange(o + 8 + hl, o + 8 + hl + jl) == j
            &&& m.skip(o + 8 + hl + jl) == peer_info_cbor + capabilities_cbor
        }),
{
    let tag = encode_utf8("tailsend/host/v1"@);
    let h = encode_utf8(host_addr);
    let j = encode_utf8(joiner_addr);
    lemma_be_bytes(h.len(), 4);
    lemma_be_bytes(j.len(), 4);
    let m = host_message(
        session_id,
        joiner_nonce,
        host_nonce,
        host_addr,
        joiner_addr,
        peer_info_cbor,
        capabilities_cbor,
    );
    let t = tag.len() as int;
    let o = t + 80;
    let hl = h.len() as int;
    let jl = j.len() as int;
    let hf = be_bytes(h.len(), 4);
    let jf = be_bytes(j.len(), 4);
    assert(m =~= tag + session_id + joiner_nonce + host_nonce + hf + h + jf + j + peer_info_cbor
        + capabilities_cbor);
    assert(m.subrange(0, t) =~= tag);
    assert(m.subrange(t, t + 16) =~= session_id);
    assert(m.subrange(t + 16, t + 48) =~= joiner_nonce);
    assert(m.subrange(t + 48, o) =~= host_nonce);
    assert(m.subrange(o, o + 4) =~= hf);
    assert(m.subrange(o + 4, o + 4 + hl) =~= h);
    assert(m.subrange(o + 4 + hl, o + 8 + hl) =~= jf);
    assert(m.subrange(o + 8 + hl, o + 8 + hl + jl) =~= j);
    assert(m.skip(o + 8 + hl + jl) =~= peer_info_cbor + capabilities_cbor);
}

/// The answer to a received proof, given the tag it should equal.
pub open spec fn proof_verdict(received: Seq<u8>, expected: [u8; 32]) -> Result<(), AuthError> {
    if received.len() != 32 {
        Err(AuthError::InvalidProofLength(received.len() as usize))
    } else if received == expected@ {
        Ok(())
    } else {
        Err(AuthError::VerificationFailed)
    }
}

fn push_address(out: &mut Vec<u8>, addr: &str)
    ensures
        final(out)@ == old(out)@ + address_field(addr@),
{
    let b: &[u8] = addr.as_bytes();
    push_be(out, b.len() as u64, 4);
    extend_from(out, b);
    assert(final(out)@ =~= old(out)@ + address_field(addr@));
}

/// The joiner's proof, over the CBOR encodings of its peer description and
/// capabilities.
pub fn compute_joiner_proof(
    invite_secret: &[u8],
    session_id: &[u8; 16],
    joiner_nonce: &[u8; 32],
    joiner_listener_addr: &str,
    peer_info_cbor: &[u8],
    capabilities_cbor: &[u8],
) -> (r: TagResult)
    ensures
        r == TagResult::Ok(
            hmac_sha256(
                invite_secret@,
                join_message(
                    session_id@,
                    joiner_nonce@,
                    joiner_listener_addr@,
                    peer_info_cbor@,
                    capabilities_cbor@,
                ),
            ),
        ),
{
    let mut message: Vec<u8> = Vec::new();
    extend_from(&mut message, "tailsend/join/v1".as_bytes());
    extend_from(&mut message, session_id);
    extend_from(&mut message, joiner_nonce);
    push_address(&mut message, joiner_listener_addr);
    extend_from(&mut message, peer_info_cbor);
    extend_from(&mut message, capabilities_cbor);
    assert(message@ =~= join_message(
        session_id@,
        joiner_nonce@,
        joiner_listener_addr@,
        peer_info_cbor@,
        capabilities_cbor@,
    ));
    hmac_sha256_tag(invite_secret, &message)
}

/// Checks a joiner's proof: its length first, then (in constant time) its
/// bytes against the proof computed here.
pub fn verify_joiner_proof(
    invite_secret: &[u8],
    session_id: &[u8; 16],
    joiner_nonce: &[u8; 32],
    joiner_listener_addr: &str,
    peer_info_cbor: &[u8],
    capabilities_cbor: &[u8],
    expected_proof: &[u8],
) -> (r: Result<(), AuthError>)
    ensures
        r == proof_verdict(
            expected_proof@,
            hmac_sha256(
                invite_secret@,
                join_message(
                    session_id@,
                    joiner_nonce@,
                    joiner_listener_addr@,
                    peer_info_cbor@,
                    capabilities_cbor@,
                ),
            ),
        ),
{
    if expected_proof.len() != 32 {
        return Err(AuthError::InvalidProofLength(expected_proof.len()));
    }
    let computed = match compute_joiner_proof(
        invite_secret,
        session_id,
        joiner_nonce,
        joiner_listener_addr,
        peer_info_cbor,
        capabilities_cbor,
    ) {
        Ok(tag) => tag,
        Err(e) => return Err(e),
    };
    if constant_time_eq(&computed, expected_proof) {
        Ok(())
    } else {
        Err(AuthError::VerificationFailed)
    }
}

/// The host's proof, over the CBOR encodings of its own peer description
/// and capabilities.
pub fn compute_host_proof(
    invite_secret: &[u8],
    session_id: &[u8; 16],
    joiner_nonce: &[u8; 32],
    host_nonce: &[u8; 32],
    host_listener_addr: &str,
    joiner_listener_addr: &str,
    peer_info_cbor: &[u8],
    capabilities_cbor: &[u8],
) -> (r: TagResult)
    ensures
        r == TagResult::Ok(
            hmac_sha256(
                invite_secret@,
                host_message(
                    session_id@,
                    joiner_nonce@,
                    host_nonce@,
                    host_listener_addr@,
                    joiner_listener_addr@,
                    peer_info_cbor@,
                    capabilities_cbor@,
                ),
            ),
        ),
{
    let mut message: Vec<u8> = Vec::new();
    extend_from(&mut message, "tailsend/host/v1".as_bytes());
    extend_from(&mut message, session_id);
    extend_from(&mut message, joiner_nonce);
    extend_from(&mut message, host_nonce);
    push_address(&mut message, host_listener_addr);
    push_address(&mut message, joiner_listener_addr);
    extend_from(&mut message, peer_info_cbor);
    extend_from(&mut message, capabilities_cbor);
    assert(message@ =~= host_message(
        session_id@,
        joiner_nonce@,
        host_nonce@,
        host_listener_addr@,
        joiner_listener_addr@,
        peer_info_cbor@,
        capabilities_cbor@,
    ));
    hmac_sha256_tag(invite_secret, &message)
}

/// Checks a host's proof: its length first, then (in constant time) its
/// bytes against the proof computed here.
pub fn verify_host_proof(
    invite_secret: &[u8],
    session_id: &[u8; 16],
    joiner_nonce: &[u8; 32],
    host_nonce: &[u8; 32],
    host_listener_addr: &str,
    joiner_listener_addr: &str,
    peer_info_cbor: &[u8],
    capabilities_cbor: &[u8],
    expected_proof: &[u8],
) -> (r: Result<(), AuthError>)
    ensures
        r == proof_verdict(
            expected_proof@,
            hmac_sha256(
                invite_secret@,
                host_message(
                    session_id@,
                    joiner_nonce@,
                    host_nonce@,
                    host_listener_addr@,
                    joiner_listener_addr@,
                    peer_info_cbor@,
                    capabilities_cbor@,
                ),
            ),
        ),
{
    if expected_proof.len() != 32 {
        return Err(AuthError::InvalidProofLength(expected_proof.len()));
    }
    let computed = match compute_host_proof(
        invite_secret,
        session_id,
        joiner_nonce,
        host_nonce,
        host_listener_addr,
        joiner_listener_addr,
        peer_info_cbor,
        capabilities_cbor,
    ) {
        Ok(tag) => tag,
        Err(e) => return Err(e),
    };
    if constant_time_eq(&computed, expected_proof) {
        Ok(())
    } else {
        Err(AuthError::VerificationFailed)
    }
}

/// A proof is accepted exactly when it is the tag that was expected: the
/// tag itself always passes, and anything else, of any length, is refused.
pub proof fn proof_accepted_iff_equal(received: Seq<u8>, expected: [u8; 32])
    ensures
        proof_verdict(received, expected) is Ok <==> received == expected@,
        proof_verdict(expected@, expected) == Ok::<(), AuthError>(()),
{
    broadcast use vstd::array::array_len_matches_n;
    assert(expected@.len() == 32);
}

} // verus!
