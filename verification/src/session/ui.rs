//! The flat view of the backend snapshot that the user interfaces render.

use vstd::prelude::*;
use crate::session::event::{format_transfer_id, hex_id, reason_status, transfer_status_for_reason};
use crate::session::service::{AppSnapshot, BackendSnapshot, ReceivedMessage, TransferOutcome};
use crate::session::state::{AppEvent, SessionState};
use crate::text::{chars_of, dec, extend_from, string_from_chars, u64_to_dec};
use crate::transport::TransportPath;

verus! {

#[derive(Debug, Clone)]
pub struct UiTransfer {
    pub id: String,
    pub name: String,
    pub done: u64,
    pub total: u64,
    pub incoming: bool,
    pub status: &'static str,
}

#[derive(Debug, Clone)]
pub struct UiReceivedItem {
    pub name: String,
    pub size: u64,
    pub local_path_or_handle: String,
}

#[derive(Debug, Clone)]
pub struct UiQrBitmap {
    pub width: u32,
    pub height: u32,
    pub rgba_pixels: Vec<u8>,
}

#[derive(Debug, Clone)]
pub enum UiEvent {
    Snapshot { sequence: u64, snapshot: UiSnapshot },
    Progress { sequence: u64, id: String, done: u64, total: u64 },
    Text { sequence: u64, text: String, incoming: bool },
    Files { sequence: u64, items: Vec<UiReceivedItem> },
    Terminal { sequence: u64, id: String, status: &'static str, message: Option<String> },
}

#[derive(Debug, Clone)]
pub struct UiSnapshot {
    pub api_version: u16,
    pub sequence: u64,
    pub state: &'static str,
    pub peer_name: String,
    pub invite_url: Option<String>,
    pub invite_expires_in_secs: u64,
    pub can_send: bool,
    pub can_disconnect: bool,
    pub transfer: Option<UiTransfer>,
    pub error: Option<String>,
    pub transport: TransportPath,
    pub received: Vec<UiReceivedItem>,
    pub received_messages: Vec<ReceivedMessage>,
    pub last_transfer: Option<TransferOutcome>,
}

/// The label of a state as the interfaces know it.
pub open spec fn state_label(s: SessionState) -> Seq<char> {
    match s {
        SessionState::AwaitingPeer { .. } => "awaiting-peer"@,
        SessionState::ConnectedIdle { .. } => "connected"@,
        SessionState::Transferring { .. } => "transferring"@,
        SessionState::Error { .. } => "error"@,
        SessionState::Disconnected { .. } => "ready"@,
        _ => "booting"@,
    }
}

/// The interfaces know each state by its documented label: a disconnected
/// session is "ready", one awaiting its peer "awaiting-peer", a connected one
/// "connected", one sending or receiving "transferring", a failed one
/// "error"; every other state is still "booting".
pub proof fn interface_state_labels(s: SessionState)
    ensures
        s is Disconnected ==> state_label(s) == "ready"@,
        s is AwaitingPeer ==> state_label(s) == "awaiting-peer"@,
        s is ConnectedIdle ==> state_label(s) == "connected"@,
        s is Transferring ==> state_label(s) == "transferring"@,
        s is Error ==> state_label(s) == "error"@,
        (s is Booting || s is DialingHost || s is Authenticating || s is AwaitingAcceptance
            || s is AwaitingUserDecision) ==> state_label(s) == "booting"@,
{
}

impl UiSnapshot {
    /// Flattens a backend snapshot, with the items this interface has
    /// received.
    pub fn from_backend(snapshot: BackendSnapshot, received: Vec<UiReceivedItem>) -> (ui: Self)
        ensures
            ui.api_version == snapshot.api_version,
            ui.sequence == snapshot.sequence,
            ui.state@ == state_label(snapshot.app.state),
            snapshot.app.state is Disconnected ==> ui.state@ == "ready"@,
            snapshot.app.state is AwaitingPeer ==> ui.state@ == "awaiting-peer"@,
            snapshot.app.state is ConnectedIdle ==> ui.state@ == "connected"@,
            snapshot.app.state is Transferring ==> ui.state@ == "transferring"@,
            snapshot.app.state is Error ==> ui.state@ == "error"@,
            ui.peer_name == snapshot.app.peer_display_name,
            ui.transport == snapshot.app.transport_path,
            ui.received@ == received@,
            ui.received_messages@ == snapshot.received_messages@,
            ui.last_transfer == snapshot.last_transfer,
            ui.can_send == (snapshot.app.state is ConnectedIdle && snapshot.app.can_send),
            ui.can_disconnect == (snapshot.app.can_disconnect && !(snapshot.app.state is Booting)
                && !(snapshot.app.state is Disconnected)),
            match snapshot.app.state {
                SessionState::AwaitingPeer { invite_url, .. } => ui.invite_url == Some(invite_url)
                    && ui.invite_expires_in_secs == snapshot.app.invite_expires_in_secs,
                _ => ui.invite_url is None && ui.invite_expires_in_secs == 0,
            },
            match snapshot.app.state {
                SessionState::Transferring {
                    transfer_id,
                    is_incoming,
                    bytes_done,
                    bytes_total,
                    current_item_name,
                    ..
                } => ui.transfer matches Some(t) && t.id@ == hex_id(transfer_id@) && t.name
                    == current_item_name && t.done == bytes_done && t.total == bytes_total
                    && t.incoming == is_incoming && t.status@ == "transferring"@,
                _ => ui.transfer is None,
            },
            match snapshot.app.state {
                SessionState::Error { message, .. } => ui.error == Some(message),
                _ => ui.error is None,
            },
    {
        let app = snapshot.app;
        let mut ui = UiSnapshot {
            api_version: snapshot.api_version,
            sequence: snapshot.sequence,
            state: "booting",
            peer_name: app.peer_display_name,
            invite_url: None,
            invite_expires_in_secs: 0,
            can_send: false,
            can_disconnect: app.can_disconnect,
            transfer: None,
            error: None,
            transport: app.transport_path,
            received,
            received_messages: snapshot.received_messages,
            last_transfer: snapshot.last_transfer,
        };
        match app.state {
            SessionState::Booting => {
                ui.can_disconnect = false;
            },
            SessionState::AwaitingPeer { invite_url, .. } => {
                ui.state = "awaiting-peer";
                ui.invite_url = Some(invite_url);
                ui.invite_expires_in_secs = app.invite_expires_in_secs;
            },
            SessionState::ConnectedIdle { .. } => {
                ui.state = "connected";
                ui.can_send = app.can_send;
            },
            SessionState::Transferring {
                transfer_id,
                is_incoming,
                bytes_done,
                bytes_total,
                current_item_name,
                ..
            } => {
                ui.state = "transferring";
                ui.transfer = Some(
                    UiTransfer {
                        id: format_transfer_id(transfer_id),
                        name: current_item_name,
                        done: bytes_done,
                        total: bytes_total,
                        incoming: is_incoming,
                        status: "transferring",
                    },
                );
            },
            SessionState::Error { message, .. } => {
                ui.state = "error";
                ui.error = Some(message);
            },
            SessionState::Disconnected { .. } => {
                ui.state = "ready";
                ui.can_disconnect = false;
            },
            _ => {},
        }
        ui
    }
}

/// The text an interface shows for an error event: its code in decimal,
/// a colon and a space, then the message.
pub open spec fn error_text(code: u32, message: Seq<char>) -> Seq<char> {
    dec(code as nat) + seq![':', ' '] + message
}

/// `s` is `base` with only its error replaced by `error`.
pub open spec fn with_error(s: UiSnapshot, base: UiSnapshot, error: Seq<char>) -> bool {
    &&& s.error matches Some(e) && e@ == error
    &&& s == (UiSnapshot { error: s.error, ..base })
}

/// The interface event for a session event, given the sequence number the
/// event was published with and the interface's current snapshot (read
/// when the event is a state, transport or error change).
pub fn map_event(snapshot: UiSnapshot, sequence: u64, event: AppEvent) -> (r: UiEvent)
    ensures
        match event {
            AppEvent::StateChanged(_) => r == (UiEvent::Snapshot {
                sequence: snapshot.sequence,
                snapshot,
            }),
            AppEvent::TransportChanged(_) => r == (UiEvent::Snapshot {
                sequence: snapshot.sequence,
                snapshot,
            }),
            AppEvent::TransferProgress { transfer_id, bytes_done, bytes_total } => r matches UiEvent::Progress {
                sequence: q,
                id,
                done,
                total,
            } && q == sequence && id@ == hex_id(transfer_id@) && done == bytes_done && total
                == bytes_total,
            AppEvent::TextReceived { text } => r == (UiEvent::Text {
                sequence,
                text,
                incoming: true,
            }),
            AppEvent::FilesReceived { items } => r matches UiEvent::Files { sequence: q, items: u }
                && q == sequence && u@.len() == items@.len() && forall|i: int|
                0 <= i < u@.len() ==> (#[trigger] u@[i]).name == items@[i].name && u@[i].size
                == items@[i].size && u@[i].local_path_or_handle == items@[i].local_path_or_handle,
            AppEvent::TransferCompleted { transfer_id } => r matches UiEvent::Terminal {
                sequence: q,
                id,
                status,
                message,
            } && q == sequence && id@ == hex_id(transfer_id@) && status@ == "completed"@
                && message is None,
            AppEvent::TransferCancelled { transfer_id, reason } => r matches UiEvent::Terminal {
                sequence: q,
                id,
                status,
                message,
            } && q == sequence && id@ == hex_id(transfer_id@) && status@ == reason_status(reason@) && message == Some(reason),
            AppEvent::ErrorOccurred { code, message } => r matches UiEvent::Snapshot {
                sequence: q,
                snapshot: s,
            } && q == snapshot.sequence && (if snapshot.sequence == sequence {
                with_error(s, snapshot, error_text(code, message@))
            } else {
                s == snapshot
            }),
        },
{
    match event {
        AppEvent::StateChanged(_) => {
            let q = snapshot.sequence;
            UiEvent::Snapshot { sequence: q, snapshot }
        },
        AppEvent::TransportChanged(_) => {
            let q = snapshot.sequence;
            UiEvent::Snapshot { sequence: q, snapshot }
        },
        AppEvent::TransferProgress { transfer_id, bytes_done, bytes_total } => UiEvent::Progress {
            sequence,
            id: format_transfer_id(transfer_id),
            done: bytes_done,
            total: bytes_total,
        },
        AppEvent::TextReceived { text } => UiEvent::Text { sequence, text, incoming: true },
        AppEvent::FilesReceived { items } => {
            let mut u: Vec<UiReceivedItem> = Vec::new();
            let mut i: usize = 0;
            while i < items.len()
                invariant
                    i <= items@.len(),
                    u@.len() == i,
                    forall|k: int|
                        0 <= k < i ==> (#[trigger] u@[k]).name == items@[k].name && u@[k].size
                            == items@[k].size && u@[k].local_path_or_handle
                            == items@[k].local_path_or_handle,
                decreases items@.len() - i,
            {
                let item = &items[i];
                u.push(
                    UiReceivedItem {
                        name: item.name.clone(),
                        size: item.size,
                        local_path_or_handle: item.local_path_or_handle.clone(),
                    },
                );
                i += 1;
            }
            UiEvent::Files { sequence, items: u }
        },
        AppEvent::TransferCompleted { transfer_id } => UiEvent::Terminal {
            sequence,
            id: format_transfer_id(transfer_id),
            status: "completed",
            message: None,
        },
        AppEvent::TransferCancelled { transfer_id, reason } => {
            let status = transfer_status_for_reason(reason.as_str());
            UiEvent::Terminal {
                sequence,
                id: format_transfer_id(transfer_id),
                status,
                message: Some(reason),
            }
        },
        AppEvent::ErrorOccurred { code, message } => {
            let mut s = snapshot;
            if s.sequence == sequence {
                let mut text: Vec<char> = u64_to_dec(code as u64);
                text.push(':');
                text.push(' ');
                let m = chars_of(message.as_str());
                extend_from(&mut text, &m);
                assert(text@ =~= error_text(code, message@));
                s.error = Some(string_from_chars(&text));
            }
            let q = s.sequence;
            UiEvent::Snapshot { sequence: q, snapshot: s }
        },
    }
}

/// The sequence number an interface event carries.
pub open spec fn sequence_of(event: UiEvent) -> u64 {
    match event {
        UiEvent::Snapshot { sequence, .. } => sequence,
        UiEvent::Progress { sequence, .. } => sequence,
        UiEvent::Text { sequence, .. } => sequence,
        UiEvent::Files { sequence, .. } => sequence,
        UiEvent::Terminal { sequence, .. } => sequence,
    }
}

/// The sequence number of an interface event.
pub fn ui_event_sequence(event: &UiEvent) -> (s: u64)
    ensures
        s == sequence_of(*event),
{
    match event {
        UiEvent::Snapshot { sequence, .. } => *sequence,
        UiEvent::Progress { sequence, .. } => *sequence,
        UiEvent::Text { sequence, .. } => *sequence,
        UiEvent::Files { sequence, .. } => *sequence,
        UiEvent::Terminal { sequence, .. } => *sequence,
    }
}

/// Holds the snapshot a user interface currently renders.
pub struct UiStateAdapter {
    pub current_snapshot: AppSnapshot,
}

impl Default for UiStateAdapter {
    fn default() -> (a: Self)
        ensures
            a.current_snapshot.is_initial(),
    {
        UiStateAdapter { current_snapshot: AppSnapshot::default() }
    }
}

} // verus!
