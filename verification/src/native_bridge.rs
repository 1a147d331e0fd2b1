//! Status codes and event records of the native Tailcat bridge's C ABI.

use vstd::prelude::*;

verus! {

pub type TcHandle = u64;

pub const TC_OK: i32 = 0;
pub const TC_EOF: i32 = 1;
pub const TC_TIMEOUT: i32 = 2;
pub const TC_CANCELLED: i32 = 3;
pub const TC_INVALID_ARGUMENT: i32 = 10;
pub const TC_INVALID_HANDLE_ERROR: i32 = 11;
pub const TC_ALREADY_CLOSED: i32 = 12;
pub const TC_BUFFER_TOO_SMALL: i32 = 13;
pub const TC_NETWORK_ERROR: i32 = 20;
pub const TC_PROTOCOL_ERROR: i32 = 21;
pub const TC_INTERNAL_ERROR: i32 = 255;

pub const TC_EVENT_NONE: u32 = 0;
pub const TC_EVENT_INCOMING_STREAM: u32 = 1;
pub const TC_EVENT_LISTENER_ERROR: u32 = 2;
pub const TC_EVENT_STREAM_ERROR: u32 = 3;
pub const TC_EVENT_LOG: u32 = 4;

/// One event reported by the bridge.
#[derive(Debug, Clone, Copy, Default)]
pub struct TcEvent {
    pub struct_size: u32,
    pub event_type: u32,
    pub owner_handle: TcHandle,
    pub object_handle: TcHandle,
    pub port: u16,
    pub reserved: u16,
    pub status_code: i32,
}

/// A non-zero bridge status.
#[derive(Debug, Clone, Copy, PartialEq, Eq)]
pub struct TcError(pub i32);

impl TcError {
    pub fn code(self) -> (c: i32)
        ensures
            c == self.0,
    {
        self.0
    }
}

/// Converts a C ABI status into a result: `TC_OK` is success, any other
/// code is kept as the error.
pub fn status(code: i32) -> (r: Result<(), TcError>)
    ensures
        code == TC_OK ==> r is Ok,
        code != TC_OK ==> r == Err::<(), TcError>(TcError(code)),
{
    if code == TC_OK {
        Ok(())
    } else {
        Err(TcError(code))
    }
}

} // verus!
