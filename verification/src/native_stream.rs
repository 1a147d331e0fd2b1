//! What the native transport makes of the bridge's answers: the error for a
//! status code, and the outcome of one read or write call given the status
//! and the byte count the bridge reported.
//!
//! A read that delivered bytes and then hit the end of the stream or an
//! error returns the bytes; the end or the error is kept and reported by
//! the next read.

use vstd::prelude::*;
use crate::native_bridge::{
    TC_CANCELLED, TC_EOF, TC_INVALID_HANDLE_ERROR, TC_NETWORK_ERROR, TC_OK, TC_PROTOCOL_ERROR,
    TC_TIMEOUT,
};
use crate::text::{chars_of, dec, extend_from, string_from_chars, u64_to_dec};
use crate::transport::{error_text, TransportError};

verus! {

/// The decimal spelling of a signed number.
pub open spec fn signed_dec(i: int) -> Seq<char> {
    if i < 0 {
        seq!['-'] + dec((-i) as nat)
    } else {
        dec(i as nat)
    }
}

/// The detail text for an unexpected bridge status.
pub open spec fn status_text(code: i32) -> Seq<char> {
    "Tailcat bridge status "@ + signed_dec(code as int)
}

/// The error a bridge status stands for.
pub open spec fn bridge_error(code: i32, e: TransportError) -> bool {
    if code == TC_EOF || code == TC_INVALID_HANDLE_ERROR {
        e is Closed
    } else if code == TC_TIMEOUT {
        e is Timeout
    } else if code == TC_CANCELLED {
        e is Cancelled
    } else if code == TC_NETWORK_ERROR {
        e matches TransportError::Unreachable(s) && s@ == status_text(code)
    } else if code == TC_PROTOCOL_ERROR {
        e matches TransportError::Protocol(s) && s@ == status_text(code)
    } else {
        e matches TransportError::Internal(s) && s@ == status_text(code)
    }
}

/// The text of the error a bridge status stands for.
pub open spec fn bridge_error_text(code: i32) -> Seq<char> {
    if code == TC_EOF || code == TC_INVALID_HANDLE_ERROR {
        "Connection closed"@
    } else if code == TC_TIMEOUT {
        "Connection timed out"@
    } else if code == TC_CANCELLED {
        "Operation cancelled"@
    } else if code == TC_NETWORK_ERROR {
        "Peer unreachable: "@ + status_text(code)
    } else if code == TC_PROTOCOL_ERROR {
        "Protocol error: "@ + status_text(code)
    } else {
        "Internal transport error: "@ + status_text(code)
    }
}

fn status_string(code: i32) -> (s: String)
    ensures
        s@ == status_text(code),
{
    let mut v = chars_of("Tailcat bridge status ");
    if code < 0 {
        v.push('-');
        let magnitude: u64 = (0i64 - code as i64) as u64;
        extend_from(&mut v, &u64_to_dec(magnitude));
    } else {
        extend_from(&mut v, &u64_to_dec(code as u64));
    }
    assert(v@ =~= status_text(code));
    string_from_chars(&v)
}

/// The error for a bridge status other than success.
pub fn transport_error(code: i32) -> (e: TransportError)
    ensures
        bridge_error(code, e),
{
    if code == TC_EOF || code == TC_INVALID_HANDLE_ERROR {
        TransportError::Closed
    } else if code == TC_TIMEOUT {
        TransportError::Timeout
    } else if code == TC_CANCELLED {
        TransportError::Cancelled
    } else if code == TC_NETWORK_ERROR {
        TransportError::Unreachable(status_string(code))
    } else if code == TC_PROTOCOL_ERROR {
        TransportError::Protocol(status_string(code))
    } else {
        TransportError::Internal(status_string(code))
    }
}

/// What a read that returned bytes left for the next read.
#[derive(Debug)]
pub enum PendingReadStatus {
    Eof,
    Error(TransportError),
}

fn overrun(kind: &str, count: usize, capacity: usize) -> (e: TransportError)
    ensures
        e matches TransportError::Internal(s) && s@ == kind@ + dec(count as nat) + " > "@ + dec(
            capacity as nat,
        ),
{
    let mut v = chars_of(kind);
    extend_from(&mut v, &u64_to_dec(count as u64));
    extend_from(&mut v, &chars_of(" > "));
    extend_from(&mut v, &u64_to_dec(capacity as u64));
    TransportError::Internal(string_from_chars(&v))
}

/// The outcome of a read of up to `capacity` bytes (more than zero) for
/// which the bridge answered `code` and reported `count` bytes read, and
/// what is left for the next read.
pub fn read_outcome(code: i32, count: usize, capacity: usize) -> (r: (
    Result<usize, TransportError>,
    Option<PendingReadStatus>,
))
    ensures
        count > capacity ==> (r.0 matches Err(TransportError::Internal(s)) && s@
            == "Tailcat read overrun: "@ + dec(count as nat) + " > "@ + dec(capacity as nat))
            && r.1 is None,
        count <= capacity && code == TC_OK ==> r.0 == Ok::<usize, TransportError>(count)
            && r.1 is None,
        count <= capacity && code != TC_OK && count > 0 ==> r.0 == Ok::<usize, TransportError>(
            count,
        ) && (if code == TC_EOF {
            r.1 matches Some(PendingReadStatus::Eof)
        } else {
            r.1 matches Some(PendingReadStatus::Error(e)) && bridge_error(code, e)
        }),
        count == 0 && code != TC_OK && code == TC_EOF ==> r.0 == Ok::<usize, TransportError>(0)
            && r.1 is None,
        count == 0 && code != TC_OK && code != TC_EOF ==> (r.0 matches Err(e) && bridge_error(
            code,
            e,
        )) && r.1 is None,
{
    if count > capacity {
        return (Err(overrun("Tailcat read overrun: ", count, capacity)), None);
    }
    if code == TC_OK {
        (Ok(count), None)
    } else if count > 0 {
        let pending = if code == TC_EOF {
            PendingReadStatus::Eof
        } else {
            PendingReadStatus::Error(transport_error(code))
        };
        (Ok(count), Some(pending))
    } else if code == TC_EOF {
        (Ok(0), None)
    } else {
        (Err(transport_error(code)), None)
    }
}

/// The result a read reports for the status the previous read kept.
pub fn pending_read_result(status: PendingReadStatus) -> (r: Result<usize, TransportError>)
    ensures
        status is Eof ==> r == Ok::<usize, TransportError>(0),
        status matches PendingReadStatus::Error(e) ==> r == Err::<usize, TransportError>(e),
{
    match status {
        PendingReadStatus::Eof => Ok(0),
        PendingReadStatus::Error(e) => Err(e),
    }
}

/// The outcome of a write of `len` bytes (more than zero) for which the
/// bridge answered `code` and reported `count` bytes written.
pub fn write_outcome(code: i32, count: usize, len: usize) -> (r: Result<usize, TransportError>)
    ensures
        count > len ==> (r matches Err(TransportError::Internal(s)) && s@
            == "Tailcat write overrun: "@ + dec(count as nat) + " > "@ + dec(len as nat)),
        count <= len && code == TC_OK ==> r == Ok::<usize, TransportError>(count),
        count <= len && code != TC_OK && count > 0 ==> (r matches Err(
            TransportError::PartialWrite { written, message },
        ) && written == count && message@ == bridge_error_text(code)),
        count == 0 && code != TC_OK ==> (r matches Err(e) && bridge_error(code, e)),
{
    if count > len {
        return Err(overrun("Tailcat write overrun: ", count, len));
    }
    if code == TC_OK {
        Ok(count)
    } else if count > 0 {
        let e = transport_error(code);
        let message = e.message();
        assert(error_text(e) == bridge_error_text(code));
        Err(TransportError::PartialWrite { written: count, message })
    } else {
        Err(transport_error(code))
    }
}

/// One step of writing a whole buffer: the bytes a write accepted move the
/// offset on; a write that accepted nothing stops the loop.
pub fn write_all_step(offset: usize, written: usize, len: usize) -> (r: Result<usize, TransportError>)
    requires
        offset <= len,
        written <= len - offset,
    ensures
        written == 0 ==> (r matches Err(TransportError::Internal(s)) && s@
            == "Tailcat returned zero-byte write"@),
        written > 0 ==> r == Ok::<usize, TransportError>((offset + written) as usize),
{
    if written == 0 {
        return Err(TransportError::Internal("Tailcat returned zero-byte write".to_owned()));
    }
    Ok(offset + written)
}

} // verus!
