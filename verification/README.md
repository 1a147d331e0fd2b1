# tailsend

The protocol, validation and state logic of a peer-to-peer file and text
transfer application, written in Verus and proved against its contracts.

## Layout

- `src/` — the verified library.
  - `protocol/` — limits, file name sanitizing, data stream headers,
    control-message framing, the handshake's HMAC proofs and invitations.
  - `session/` — transfer identifiers, the session state and its events,
    the backend service core (snapshot, bounded replay, progress
    throttling), the cancellation registry of running transfers, the
    handshake steps and the user interface's view.
  - `transfer.rs`, `mobile.rs` — the live text and file streams: headers,
    line decoding, read and write checks, and the steps of receiving one
    file (when its sink is prepared, committed or aborted).
  - `ipc.rs`, `native_bridge.rs`, `native_stream.rs`, `event_router.rs` —
    the frame format between user interface and backend, how its frames
    are routed and how a wait
    for events is answered, the C bridge's status codes and events, and
    the routing of incoming streams to listeners.
  - `updates.rs` — signed release manifests and the files they list.
  - `share.rs`, `shared_inbox.rs` — the share extension's item checks,
    progress, the steps of its sending session and its pending queue.
  - `desktop.rs`, `qr.rs`, `telemetry/` — helpers of the desktop app (among
    them the steps of creating an invitation), QR bitmaps and usage events.
  - `text.rs`, `bytes.rs` — character, decimal and byte-order helpers.
- `tests/` — tests run against the compiled library.
- `app/` — ordinary Rust around the library: the serde forms of the wire
  types, the locked backend service with its clock and subscribers, and the
  process-wide telemetry.

Calls into outside crates (HMAC-SHA256, SHA-256, constant-time comparison,
base64, P-256 signatures, QR encoding, random numbers) go through small
trusted wrappers whose contracts state what the crates document.
