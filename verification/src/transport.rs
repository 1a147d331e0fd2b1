//! Errors reported by the peer-to-peer stream transports.

use vstd::prelude::*;
use crate::text::{chars_of, dec, extend_from, string_from_chars, u64_to_dec};

verus! {

#[derive(Debug)]
pub enum TransportError {
    Io(String),
    PartialWrite { written: usize, message: String },
    Closed,
    Timeout,
    Cancelled,
    Unreachable(String),
    Protocol(String),
    ListenerClosed,
    Internal(String),
}

/// The text an error is shown with.
pub open spec fn error_text(e: TransportError) -> Seq<char> {
    match e {
        TransportError::Io(s) => "I/O error: "@ + s@,
        TransportError::PartialWrite { written, message } => "partial write after "@ + dec(
            written as nat,
        ) + " bytes: "@ + message@,
        TransportError::Closed => "Connection closed"@,
        TransportError::Timeout => "Connection timed out"@,
        TransportError::Cancelled => "Operation cancelled"@,
        TransportError::Unreachable(s) => "Peer unreachable: "@ + s@,
        TransportError::Protocol(s) => "Protocol error: "@ + s@,
        TransportError::ListenerClosed => "Listener already closed"@,
        TransportError::Internal(s) => "Internal transport error: "@ + s@,
    }
}

fn joined(prefix: &str, rest: &[char]) -> (s: String)
    ensures
        s@ == prefix@ + rest@,
{
    let mut v = chars_of(prefix);
    extend_from(&mut v, rest);
    string_from_chars(&v)
}

impl TransportError {
    /// The text this error is shown with.
    pub fn message(&self) -> (m: String)
        ensures
            m@ == error_text(*self),
    {
        match self {
            TransportError::Io(s) => joined("I/O error: ", &chars_of(s.as_str())),
            TransportError::PartialWrite { written, message } => {
                let mut v = chars_of("partial write after ");
                extend_from(&mut v, &u64_to_dec(*written as u64));
                extend_from(&mut v, &chars_of(" bytes: "));
                extend_from(&mut v, &chars_of(message.as_str()));
                string_from_chars(&v)
            },
            TransportError::Closed => "Connection closed".to_owned(),
            TransportError::Timeout => "Connection timed out".to_owned(),
            TransportError::Cancelled => "Operation cancelled".to_owned(),
            TransportError::Unreachable(s) => joined("Peer unreachable: ", &chars_of(s.as_str())),
            TransportError::Protocol(s) => joined("Protocol error: ", &chars_of(s.as_str())),
            TransportError::ListenerClosed => "Listener already closed".to_owned(),
            TransportError::Internal(s) => joined(
                "Internal transport error: ",
                &chars_of(s.as_str()),
            ),
        }
    }

    /// Whether the operation was cancelled.
    pub fn is_cancelled(&self) -> (b: bool)
        ensures
            b == (self is Cancelled),
    {
        match self {
            TransportError::Cancelled => true,
            _ => false,
        }
    }
}

/// Network path a stream currently uses.
#[derive(Debug, Clone, Copy, PartialEq, Eq, Structural)]
pub enum TransportPath {
    DirectUdp,
    WebRtc,
    Derp,
    Unknown,
}

/// Where a listener or dialer should find its relay map.
#[derive(Debug, Clone)]
pub struct ListenOptions {
    pub derp_map_url: String,
    pub verbose: bool,
}

} // verus!
