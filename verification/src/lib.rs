//! TailSend: framing, validation and state logic of a peer-to-peer file and
//! text transfer application.

use vstd::prelude::*;

pub mod bytes;
pub mod text;
pub mod protocol;
pub mod ipc;
pub mod native_bridge;
pub mod native_stream;
pub mod platform;
pub mod transport;
pub mod event_router;
pub mod transfer;
pub mod updates;
pub mod share;
pub mod shared_inbox;
pub mod desktop;
pub mod mobile;
pub mod qr;
pub mod telemetry;
pub mod session;

verus! {

} // verus!
