//! The session's state as the user interface sees it, the events that
//! change it, and exact copies of both.

use vstd::prelude::*;
use crate::platform::ReceivedItem;
use crate::protocol::control::{Capabilities, FileItem, FileOffer, PeerInfo, TextOffer};
use crate::transport::TransportPath;

verus! {

#[derive(Debug, Clone, PartialEq, Eq)]
pub enum SessionState {
    Booting,
    AwaitingPeer { invite_url: String, expires_at: u64, host_address: String },
    DialingHost { host_address: String },
    Authenticating,
    ConnectedIdle {
        peer_info: PeerInfo,
        peer_capabilities: Capabilities,
        peer_address: String,
        transport_path: TransportPath,
    },
    AwaitingAcceptance { transfer_id: [u8; 16], is_files: bool },
    AwaitingUserDecision { transfer_id: [u8; 16], offer: PendingOffer },
    Transferring {
        transfer_id: [u8; 16],
        is_incoming: bool,
        is_files: bool,
        bytes_done: u64,
        bytes_total: u64,
        current_item_name: String,
    },
    Disconnected { reason: String },
    Error { code: u32, message: String },
}

/// An offer that waits for the local user's decision.
#[derive(Debug, Clone, PartialEq, Eq)]
pub enum PendingOffer {
    Text(TextOffer),
    Files(FileOffer),
}

#[derive(Debug, Clone)]
pub enum AppEvent {
    StateChanged(SessionState),
    /// The latest path observed by this endpoint's data stream.
    TransportChanged(TransportPath),
    TextReceived { text: String },
    FilesReceived { items: Vec<ReceivedItem> },
    TransferProgress { transfer_id: [u8; 16], bytes_done: u64, bytes_total: u64 },
    TransferCompleted { transfer_id: [u8; 16] },
    TransferCancelled { transfer_id: [u8; 16], reason: String },
    ErrorOccurred { code: u32, message: String },
}

/// Two offers with the same contents.
pub open spec fn same_offer(a: PendingOffer, b: PendingOffer) -> bool {
    match (a, b) {
        (PendingOffer::Text(x), PendingOffer::Text(y)) => x == y,
        (PendingOffer::Files(x), PendingOffer::Files(y)) => x.items@ == y.items@ && x.total_size
            == y.total_size,
        _ => false,
    }
}

/// Two states with the same contents.
pub open spec fn same_state(a: SessionState, b: SessionState) -> bool {
    match (a, b) {
        (
            SessionState::AwaitingUserDecision { transfer_id: x, offer: o },
            SessionState::AwaitingUserDecision { transfer_id: y, offer: p },
        ) => x == y && same_offer(o, p),
        (SessionState::AwaitingUserDecision { .. }, _) => false,
        _ => a == b,
    }
}

/// Two events with the same contents.
pub open spec fn same_event(a: AppEvent, b: AppEvent) -> bool {
    match (a, b) {
        (AppEvent::StateChanged(x), AppEvent::StateChanged(y)) => same_state(x, y),
        (AppEvent::StateChanged(_), _) => false,
        (AppEvent::FilesReceived { items: x }, AppEvent::FilesReceived { items: y }) => x@ == y@,
        (AppEvent::FilesReceived { .. }, _) => false,
        _ => a == b,
    }
}

pub fn copy_string_option(o: &Option<String>) -> (r: Option<String>)
    ensures
        r == *o,
{
    match o {
        Some(s) => Some(s.clone()),
        None => None,
    }
}

pub fn copy_peer_info(p: &PeerInfo) -> (r: PeerInfo)
    ensures
        r == *p,
{
    PeerInfo {
        display_name: p.display_name.clone(),
        platform: p.platform,
        runtime: p.runtime,
        app_version: p.app_version.clone(),
        browser_family: p.browser_family,
    }
}

pub fn copy_text_offer(t: &TextOffer) -> (r: TextOffer)
    ensures
        r == *t,
{
    TextOffer {
        byte_length: t.byte_length,
        character_count: t.character_count,
        preview: t.preview.clone(),
    }
}

pub fn copy_file_item(f: &FileItem) -> (r: FileItem)
    ensures
        r == *f,
{
    FileItem {
        item_id: f.item_id,
        name: f.name.clone(),
        size: f.size,
        mime: copy_string_option(&f.mime),
        modified_unix_ms: f.modified_unix_ms,
    }
}

pub fn copy_offer(o: &PendingOffer) -> (r: PendingOffer)
    ensures
        same_offer(r, *o),
{
    match o {
        PendingOffer::Text(t) => PendingOffer::Text(copy_text_offer(t)),
        PendingOffer::Files(f) => {
            let mut items: Vec<FileItem> = Vec::new();
            let mut i: usize = 0;
            while i < f.items.len()
                invariant
                    i <= f.items@.len(),
                    items@ == f.items@.take(i as int),
                decreases f.items.len() - i,
            {
                items.push(copy_file_item(&f.items[i]));
                assert(f.items@.take(i + 1) =~= f.items@.take(i as int).push(f.items@[i as int]));
                i += 1;
            }
            assert(f.items@.take(f.items@.len() as int) =~= f.items@);
            PendingOffer::Files(FileOffer { items, total_size: f.total_size })
        },
    }
}

pub fn copy_state(s: &SessionState) -> (r: SessionState)
    ensures
        same_state(r, *s),
{
    match s {
        SessionState::Booting => SessionState::Booting,
        SessionState::AwaitingPeer { invite_url, expires_at, host_address } => {
            SessionState::AwaitingPeer {
                invite_url: invite_url.clone(),
                expires_at: *expires_at,
                host_address: host_address.clone(),
            }
        },
        SessionState::DialingHost { host_address } => SessionState::DialingHost {
            host_address: host_address.clone(),
        },
        SessionState::Authenticating => SessionState::Authenticating,
        SessionState::ConnectedIdle { peer_info, peer_capabilities, peer_address, transport_path } => {
            SessionState::ConnectedIdle {
                peer_info: copy_peer_info(peer_info),
                peer_capabilities: *peer_capabilities,
                peer_address: peer_address.clone(),
                transport_path: *transport_path,
            }
        },
        SessionState::AwaitingAcceptance { transfer_id, is_files } => {
            SessionState::AwaitingAcceptance { transfer_id: *transfer_id, is_files: *is_files }
        },
        SessionState::AwaitingUserDecision { transfer_id, offer } => {
            SessionState::AwaitingUserDecision { transfer_id: *transfer_id, offer: copy_offer(offer) }
        },
        SessionState::Transferring {
            transfer_id,
            is_incoming,
            is_files,
            bytes_done,
            bytes_total,
            current_item_name,
        } => SessionState::Transferring {
            transfer_id: *transfer_id,
            is_incoming: *is_incoming,
            is_files: *is_files,
            bytes_done: *bytes_done,
            bytes_total: *bytes_total,
            current_item_name: current_item_name.clone(),
        },
        SessionState::Disconnected { reason } => SessionState::Disconnected {
            reason: reason.clone(),
        },
        SessionState::Error { code, message } => SessionState::Error {
            code: *code,
            message: message.clone(),
        },
    }
}

pub fn copy_received_item(item: &ReceivedItem) -> (r: ReceivedItem)
    ensures
        r == *item,
{
    ReceivedItem {
        name: item.name.clone(),
        size: item.size,
        local_path_or_handle: item.local_path_or_handle.clone(),
    }
}

pub fn copy_event(e: &AppEvent) -> (r: AppEvent)
    ensures
        same_event(r, *e),
{
    match e {
        AppEvent::StateChanged(s) => AppEvent::StateChanged(copy_state(s)),
        AppEvent::TransportChanged(p) => AppEvent::TransportChanged(*p),
        AppEvent::TextReceived { text } => AppEvent::TextReceived { text: text.clone() },
        AppEvent::FilesReceived { items } => {
            let mut out: Vec<ReceivedItem> = Vec::new();
            let mut i: usize = 0;
            while i < items.len()
                invariant
                    i <= items@.len(),
                    out@ == items@.take(i as int),
                decreases items.len() - i,
            {
                out.push(copy_received_item(&items[i]));
                assert(items@.take(i + 1) =~= items@.take(i as int).push(items@[i as int]));
                i += 1;
            }
            assert(items@.take(items@.len() as int) =~= items@);
            AppEvent::FilesReceived { items: out }
        },
        AppEvent::TransferProgress { transfer_id, bytes_done, bytes_total } => {
            AppEvent::TransferProgress {
                transfer_id: *transfer_id,
                bytes_done: *bytes_done,
                bytes_total: *bytes_total,
            }
        },
        AppEvent::TransferCompleted { transfer_id } => AppEvent::TransferCompleted {
            transfer_id: *transfer_id,
        },
        AppEvent::TransferCancelled { transfer_id, reason } => AppEvent::TransferCancelled {
            transfer_id: *transfer_id,
            reason: reason.clone(),
        },
        AppEvent::ErrorOccurred { code, message } => AppEvent::ErrorOccurred {
            code: *code,
            message: message.clone(),
        },
    }
}

/// A request from the user interface to the session; `S` is the platform's
/// handle on a file to send.
pub enum AppCommand<S> {
    CreateSession { base_origin: String, now_unix_secs: u64 },
    JoinSession { invite_url: String, now_unix_secs: u64 },
    SendText { text: String },
    SendFiles { sources: Vec<S> },
    AcceptTransfer { transfer_id: [u8; 16] },
    RejectTransfer { transfer_id: [u8; 16] },
    CancelTransfer { transfer_id: [u8; 16] },
    Disconnect,
}

} // verus!
