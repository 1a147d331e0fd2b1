//! The share-extension sender: the list of shared items it accepts and the
//! progress it reports to the extension's interface.
//!
//! Cancellation is final: once the user cancels, no later step of the
//! transfer changes what the interface shows.

use vstd::prelude::*;
use crate::protocol::limits::{CONTROL_PORT, FILE_PORT, MAX_TEXT_PAYLOAD_SIZE, TEXT_PORT};
use crate::text::utf8_len;

verus! {

/// The item list handed over by the extension is at most this many bytes.
pub const MAX_ITEM_LIST_BYTES: usize = 1048576;
/// At most this many items are shared at once.
pub const MAX_SHARED_ITEMS: usize = 100;

#[derive(Debug, Clone, Copy, PartialEq, Eq, Structural)]
pub enum ShareKind {
    File,
    Text,
}

/// One item to send, as the extension describes it.
#[derive(Debug, Clone)]
pub struct ShareItem {
    pub id: String,
    pub kind: ShareKind,
    pub name: String,
    pub size: u64,
    pub path: String,
    pub mime: Option<String>,
}

/// What the extension's interface shows.
#[derive(Debug, Clone)]
pub struct ShareSnapshot {
    pub state: &'static str,
    pub invite_url: Option<String>,
    pub peer_name: Option<String>,
    pub current_name: Option<String>,
    pub done: u64,
    pub total: u64,
    pub completed_ids: Vec<String>,
    pub error: Option<String>,
}

/// The sender's progress and whether the user cancelled it.
pub struct ShareProgress {
    snapshot: ShareSnapshot,
    cancelled: bool,
}

/// The check of the serialized item list's size, made before it is parsed.
pub fn check_item_list_size(json: &str) -> (r: Result<(), String>)
    ensures
        utf8_len(json@) > MAX_ITEM_LIST_BYTES ==> (r matches Err(e) && e@ == "Item list is too large"@),
        utf8_len(json@) <= MAX_ITEM_LIST_BYTES ==> r is Ok,
{
    let b: &[u8] = json.as_bytes();
    if b.len() > MAX_ITEM_LIST_BYTES {
        return Err("Item list is too large".to_owned());
    }
    Ok(())
}

/// An absolute path on the extension's (Unix) file system.
pub open spec fn is_absolute_path(p: Seq<char>) -> bool {
    p.len() > 0 && p[0] == '/'
}

/// Whether item `i` is acceptable, given the ones before it: a fresh
/// non-empty id, a name, an absolute path, and text within the limit.
pub open spec fn item_fault(items: Seq<ShareItem>, i: int) -> Option<Seq<char>> {
    let item = items[i];
    if item.id@.len() == 0 || (exists|j: int| 0 <= j < i && #[trigger] items[j].id@ == item.id@)
        || item.name@.len() == 0 || !is_absolute_path(item.path@) {
        Some("Invalid shared item identity, name or path"@)
    } else if item.kind == ShareKind::Text && item.size > MAX_TEXT_PAYLOAD_SIZE {
        Some("Shared text exceeds 1 MiB"@)
    } else {
        None
    }
}

/// Sum of the sizes of the first `n` items.
pub open spec fn total_size(items: Seq<ShareItem>, n: int) -> int
    decreases n,
{
    if n <= 0 {
        0
    } else {
        total_size(items, n - 1) + items[n - 1].size
    }
}

/// The first failure among the first `n` items: its message, or the
/// overflow of the total size.
pub open spec fn items_fault(items: Seq<ShareItem>, n: int) -> Option<Seq<char>>
    decreases n,
{
    if n <= 0 {
        None
    } else if items_fault(items, n - 1) is Some {
        items_fault(items, n - 1)
    } else if item_fault(items, n - 1) is Some {
        item_fault(items, n - 1)
    } else if total_size(items, n) > u64::MAX {
        Some("Shared size overflow"@)
    } else {
        None
    }
}

/// What `validate_items` answers: an error message, or the total size.
pub open spec fn items_outcome(items: Seq<ShareItem>) -> Result<u64, Seq<char>> {
    if items.len() == 0 || items.len() > MAX_SHARED_ITEMS {
        Err("Expected 1 to 100 shared items"@)
    } else if items_fault(items, items.len() as int) is Some {
        Err(items_fault(items, items.len() as int)->0)
    } else {
        Ok(total_size(items, items.len() as int) as u64)
    }
}

proof fn lemma_items_fault_stable(items: Seq<ShareItem>, i: int, n: int)
    requires
        0 <= i <= n,
        items_fault(items, i) is Some,
    ensures
        items_fault(items, n) == items_fault(items, i),
    decreases n - i,
{
    if n > i {
        lemma_items_fault_stable(items, i, n - 1);
    }
}

/// Checks a parsed item list and sums its sizes.
pub fn validate_items(items: &[ShareItem]) -> (r: Result<u64, String>)
    ensures
        match items_outcome(items@) {
            Ok(total) => r == Ok::<u64, String>(total),
            Err(m) => r matches Err(e) && e@ == m,
        },
{
    if items.len() == 0 || items.len() > MAX_SHARED_ITEMS {
        return Err("Expected 1 to 100 shared items".to_owned());
    }
    let mut total: u64 = 0;
    let mut i: usize = 0;
    while i < items.len()
        invariant
            0 < items@.len() <= MAX_SHARED_ITEMS,
            i <= items@.len(),
            items_fault(items@, i as int) is None,
            total == total_size(items@, i as int),
        decreases items.len() - i,
    {
        let item = &items[i];
        let mut fresh = true;
        let mut j: usize = 0;
        while j < i
            invariant
                j <= i < items@.len(),
                fresh == forall|k: int| 0 <= k < j ==> items@[k].id@ != items@[i as int].id@,
            decreases i - j,
        {
            if crate::text::str_eq(items[j].id.as_str(), items[i].id.as_str()) {
                fresh = false;
            }
            j += 1;
        }
        let id_empty = crate::text::chars_of(item.id.as_str()).len() == 0;
        let name_empty = crate::text::chars_of(item.name.as_str()).len() == 0;
        let path = crate::text::chars_of(item.path.as_str());
        let absolute = path.len() > 0 && path[0] == '/';
        proof {
            assert(items_fault(items@, i + 1) == (if item_fault(items@, i as int) is Some {
                item_fault(items@, i as int)
            } else if total_size(items@, i + 1) > u64::MAX {
                Some("Shared size overflow"@)
            } else {
                None
            }));
        }
        if id_empty || !fresh || name_empty || !absolute {
            proof {
                lemma_items_fault_stable(items@, i + 1, items@.len() as int);
            }
            return Err("Invalid shared item identity, name or path".to_owned());
        }
        if item.kind == ShareKind::Text && item.size > MAX_TEXT_PAYLOAD_SIZE {
            proof {
                lemma_items_fault_stable(items@, i + 1, items@.len() as int);
            }
            return Err("Shared text exceeds 1 MiB".to_owned());
        }
        match total.checked_add(item.size) {
            Some(t) => {
                total = t;
            },
            None => {
                proof {
                    lemma_items_fault_stable(items@, i + 1, items@.len() as int);
                }
                return Err("Shared size overflow".to_owned());
            },
        }
        i += 1;
    }
    Ok(total)
}

/// Whether a snapshot shows a finished transfer.
pub open spec fn is_terminal(state: Seq<char>) -> bool {
    state == "completed"@ || state == "error"@ || state == "cancelled"@
}

impl ShareProgress {
    pub closed spec fn snapshot_view(&self) -> ShareSnapshot {
        self.snapshot
    }

    pub closed spec fn cancelled_view(&self) -> bool {
        self.cancelled
    }

    /// A transfer of `total` bytes that is being prepared.
    pub fn new(total: u64) -> (s: Self)
        ensures
            !s.cancelled_view(),
            s.snapshot_view().state@ == "preparing"@,
            s.snapshot_view().total == total,
            s.snapshot_view().done == 0,
            s.snapshot_view().completed_ids@.len() == 0,
            s.snapshot_view().invite_url is None,
            s.snapshot_view().peer_name is None,
            s.snapshot_view().current_name is None,
            s.snapshot_view().error is None,
    {
        ShareProgress {
            snapshot: ShareSnapshot {
                state: "preparing",
                invite_url: None,
                peer_name: None,
                current_name: None,
                done: 0,
                total,
                completed_ids: Vec::new(),
                error: None,
            },
            cancelled: false,
        }
    }

    /// What the interface shows now.
    pub fn snapshot(&self) -> (r: &ShareSnapshot)
        ensures
            *r == self.snapshot_view(),
    {
        &self.snapshot
    }

    pub fn is_cancelled(&self) -> (b: bool)
        ensures
            b == self.cancelled_view(),
    {
        self.cancelled
    }

    /// Waiting for the peer to open the invitation.
    pub fn waiting(&mut self, invite_url: String)
        ensures
            old(self).cancelled_view() ==> *final(self) == *old(self),
            !old(self).cancelled_view() ==> {
                &&& final(self).snapshot_view() == (ShareSnapshot {
                    state: final(self).snapshot_view().state,
                    invite_url: Some(invite_url),
                    ..old(self).snapshot_view()
                })
                &&& final(self).snapshot_view().state@ == "waiting"@
                &&& !final(self).cancelled_view()
            },
    {
        if !self.cancelled {
            self.snapshot.state = "waiting";
            self.snapshot.invite_url = Some(invite_url);
        }
    }

    /// Connecting to the peer.
    pub fn connecting(&mut self)
        ensures
            old(self).cancelled_view() ==> *final(self) == *old(self),
            !old(self).cancelled_view() ==> {
                &&& final(self).snapshot_view() == (ShareSnapshot {
                    state: final(self).snapshot_view().state,
                    ..old(self).snapshot_view()
                })
                &&& final(self).snapshot_view().state@ == "connecting"@
                &&& !final(self).cancelled_view()
            },
    {
        if !self.cancelled {
            self.snapshot.state = "connecting";
        }
    }

    /// The peer's name, once the handshake succeeded.
    pub fn peer(&mut self, name: String)
        ensures
            old(self).cancelled_view() ==> *final(self) == *old(self),
            !old(self).cancelled_view() ==> final(self).snapshot_view() == (ShareSnapshot {
                peer_name: Some(name),
                ..old(self).snapshot_view()
            }) && !final(self).cancelled_view(),
    {
        if !self.cancelled {
            self.snapshot.peer_name = Some(name);
        }
    }

    /// Sending the item named `name`.
    pub fn sending(&mut self, name: String)
        ensures
            old(self).cancelled_view() ==> *final(self) == *old(self),
            !old(self).cancelled_view() ==> {
                &&& final(self).snapshot_view() == (ShareSnapshot {
                    state: final(self).snapshot_view().state,
                    current_name: Some(name),
                    ..old(self).snapshot_view()
                })
                &&& final(self).snapshot_view().state@ == "sending"@
                &&& !final(self).cancelled_view()
            },
    {
        if !self.cancelled {
            self.snapshot.state = "sending";
            self.snapshot.current_name = Some(name);
        }
    }

    /// Bytes sent so far over all items.
    pub fn progress(&mut self, done: u64)
        ensures
            old(self).cancelled_view() ==> *final(self) == *old(self),
            !old(self).cancelled_view() ==> final(self).snapshot_view() == (ShareSnapshot {
                done,
                ..old(self).snapshot_view()
            }) && !final(self).cancelled_view(),
    {
        if !self.cancelled {
            self.snapshot.done = done;
        }
    }

    /// Item `id` of `size` bytes was sent: it is listed as completed and
    /// its bytes counted, never beyond the total.
    pub fn completed(&mut self, id: String, size: u64)
        ensures
            old(self).cancelled_view() ==> *final(self) == *old(self),
            !old(self).cancelled_view() ==> {
                let old_done = old(self).snapshot_view().done;
                let total = old(self).snapshot_view().total;
                let sum: int = if old_done + size > u64::MAX {
                    u64::MAX as int
                } else {
                    old_done + size
                };
                &&& final(self).snapshot_view().completed_ids@ == old(self).snapshot_view().completed_ids@.push(id)
                &&& final(self).snapshot_view().done == if sum < total {
                    sum
                } else {
                    total as int
                }
                &&& final(self).snapshot_view().state == old(self).snapshot_view().state
                &&& final(self).snapshot_view().total == total
                &&& !final(self).cancelled_view()
            },
    {
        if !self.cancelled {
            self.snapshot.completed_ids.push(id);
            let sum = self.snapshot.done.saturating_add(size);
            self.snapshot.done = if sum < self.snapshot.total {
                sum
            } else {
                self.snapshot.total
            };
        }
    }

    /// Every item was sent.
    pub fn finished(&mut self)
        ensures
            old(self).cancelled_view() ==> *final(self) == *old(self),
            !old(self).cancelled_view() ==> {
                &&& final(self).snapshot_view() == (ShareSnapshot {
                    state: final(self).snapshot_view().state,
                    current_name: None,
                    ..old(self).snapshot_view()
                })
                &&& final(self).snapshot_view().state@ == "completed"@
                &&& !final(self).cancelled_view()
            },
    {
        if !self.cancelled {
            self.snapshot.state = "completed";
            self.snapshot.current_name = None;
        }
    }

    /// The transfer failed with `error`.
    pub fn failed(&mut self, error: String)
        ensures
            old(self).cancelled_view() ==> *final(self) == *old(self),
            !old(self).cancelled_view() ==> {
                &&& final(self).snapshot_view() == (ShareSnapshot {
                    state: final(self).snapshot_view().state,
                    error: Some(error),
                    ..old(self).snapshot_view()
                })
                &&& final(self).snapshot_view().state@ == "error"@
                &&& !final(self).cancelled_view()
            },
    {
        if !self.cancelled {
            self.snapshot.state = "error";
            self.snapshot.error = Some(error);
        }
    }

    /// The user cancels.  A finished transfer stays as it is; otherwise it
    /// shows as cancelled from now on.  Returns whether it was cancelled
    /// now, so that the running stream can be woken and closed.
    pub fn request_cancel(&mut self) -> (now: bool)
        ensures
            is_terminal(old(self).snapshot_view().state@) ==> !now && *final(self) == *old(self),
            !is_terminal(old(self).snapshot_view().state@) ==> {
                &&& now
                &&& final(self).cancelled_view()
                &&& final(self).snapshot_view() == (ShareSnapshot {
                    state: final(self).snapshot_view().state,
                    ..old(self).snapshot_view()
                })
                &&& final(self).snapshot_view().state@ == "cancelled"@
            },
    {
        let state = self.snapshot.state;
        if crate::text::str_eq(state, "completed") || crate::text::str_eq(state, "error")
            || crate::text::str_eq(state, "cancelled") {
            return false;
        }
        self.cancelled = true;
        self.snapshot.state = "cancelled";
        true
    }
}

// ---------------------------------------------------------------------------
// The sending session, step by step.
// ---------------------------------------------------------------------------

/// The error of a session whose invitation nobody answered in time.
pub const INVITATION_EXPIRED: &'static str = "Invitation expired";
/// The error of a session whose peer connected on another port.
pub const UNEXPECTED_PORT: &'static str = "Unexpected connection port";
/// The error of a session the user cancelled.
pub const SHARE_CANCELLED: &'static str = "Operation cancelled";

/// Where a sending session stands.
#[derive(Debug, Clone, Copy, PartialEq, Eq, Structural)]
pub enum SharePhase {
    /// Items checked, listening; nothing shown to a peer yet.
    Preparing,
    /// An invitation is shown and the session waits for the peer.
    Waiting,
    /// The handshake with the peer runs.
    Connecting,
    /// Items are being sent, one after the other.
    Sending,
    Completed,
    Failed,
    Cancelled,
}

/// The decisions' view of a sending session.
#[derive(Debug, Clone, Copy, PartialEq, Eq, Structural)]
pub struct ShareSessionState {
    pub phase: SharePhase,
    /// No invitation was handed over: this side invites the peer.
    pub hosting: bool,
    /// The index of the item to send next.
    pub next_item: u64,
    pub item_count: u64,
    /// Bytes of the items sent completely.
    pub finished_bytes: u64,
}

/// What the outside work reports back to the session.
#[derive(Debug, Clone, Copy, PartialEq, Eq, Structural)]
pub enum ShareEvent {
    /// The items are readable and the listener is up.
    Start,
    /// The invitation URL has been made and shown.
    InviteReady,
    /// A peer connected on `port`.
    Accepted { port: u16 },
    /// No peer came within the invitation's lifetime.
    AcceptTimedOut,
    /// The handshake with the peer succeeded.
    Connected,
    /// The item `next_item` went out completely; it has `size` bytes.
    ItemSent { size: u64 },
    /// A step failed with an error of the outside work.
    StepFailed,
    /// The user cancelled.
    CancelRequested,
}

/// Why the session fails.
#[derive(Debug, Clone, Copy, PartialEq, Eq, Structural)]
pub enum ShareFailure {
    InvitationExpired,
    UnexpectedPort,
    /// The error the failed step reported.
    Reported,
}

/// What the session does next.
#[derive(Debug, Clone, Copy, PartialEq, Eq, Structural)]
pub enum ShareAction {
    /// Draw a session id and secret, make and show the invitation URL.
    CreateInvite,
    /// Wait for the peer, at most the invitation's lifetime.
    AcceptPeer,
    /// Run the host side of the handshake on the accepted stream.
    HostHandshake,
    /// Close the accepted stream and fail with `UNEXPECTED_PORT`.
    RejectConnection,
    /// Dial the inviting peer and run the joining side of the handshake.
    JoinHandshake,
    /// Open the item `index` and send it on the port of its kind.
    SendItem { index: u64 },
    /// Every item went out: show the session as completed.
    Finish,
    /// Show the session as failed.
    Fail { failure: ShareFailure },
    /// Wake the running step and close its stream.
    Stop,
    Nothing,
}

/// The port an item of `kind` is sent on.
pub open spec fn port_of(kind: ShareKind) -> u16 {
    match kind {
        ShareKind::Text => TEXT_PORT,
        ShareKind::File => FILE_PORT,
    }
}

pub fn item_port(kind: ShareKind) -> (p: u16)
    ensures
        p == port_of(kind),
{
    match kind {
        ShareKind::Text => TEXT_PORT,
        ShareKind::File => FILE_PORT,
    }
}

impl ShareSessionState {
    /// A session that has not started: it invites the peer when `hosting`.
    pub fn start(hosting: bool, item_count: u64) -> (s: Self)
        ensures
            s == (ShareSessionState {
                phase: SharePhase::Preparing,
                hosting,
                next_item: 0,
                item_count,
                finished_bytes: 0,
            }),
    {
        ShareSessionState { phase: SharePhase::Preparing, hosting, next_item: 0, item_count, finished_bytes: 0 }
    }
}

/// Whether the session has ended.
pub open spec fn share_done(p: SharePhase) -> bool {
    p is Completed || p is Failed || p is Cancelled
}

/// Sends the item `s.next_item`, or completes when none is left.
pub open spec fn send_next(s: ShareSessionState) -> (ShareSessionState, ShareAction) {
    if s.next_item < s.item_count {
        (ShareSessionState { phase: SharePhase::Sending, ..s }, ShareAction::SendItem { index: s.next_item })
    } else {
        (ShareSessionState { phase: SharePhase::Completed, ..s }, ShareAction::Finish)
    }
}

/// The next state of a sending session and what it does, for each event.
/// An ended session stays as it is: in particular, nothing after a
/// cancellation changes it.
pub open spec fn share_session_next(s: ShareSessionState, e: ShareEvent) -> (ShareSessionState, ShareAction) {
    let failed = ShareSessionState { phase: SharePhase::Failed, ..s };
    let unchanged = (s, ShareAction::Nothing);
    if share_done(s.phase) {
        unchanged
    } else {
        match e {
            ShareEvent::CancelRequested => (ShareSessionState { phase: SharePhase::Cancelled, ..s }, ShareAction::Stop),
            ShareEvent::StepFailed => (failed, ShareAction::Fail { failure: ShareFailure::Reported }),
            ShareEvent::Start => if !(s.phase is Preparing) {
                unchanged
            } else if s.hosting {
                (s, ShareAction::CreateInvite)
            } else {
                (ShareSessionState { phase: SharePhase::Connecting, ..s }, ShareAction::JoinHandshake)
            },
            ShareEvent::InviteReady => if s.phase is Preparing && s.hosting {
                (ShareSessionState { phase: SharePhase::Waiting, ..s }, ShareAction::AcceptPeer)
            } else {
                unchanged
            },
            ShareEvent::Accepted { port } => if !(s.phase is Waiting) {
                unchanged
            } else if port == CONTROL_PORT {
                (ShareSessionState { phase: SharePhase::Connecting, ..s }, ShareAction::HostHandshake)
            } else {
                (failed, ShareAction::RejectConnection)
            },
            ShareEvent::AcceptTimedOut => if s.phase is Waiting {
                (failed, ShareAction::Fail { failure: ShareFailure::InvitationExpired })
            } else {
                unchanged
            },
            ShareEvent::Connected => if s.phase is Connecting {
                send_next(s)
            } else {
                unchanged
            },
            ShareEvent::ItemSent { size } => if s.phase is Sending && s.next_item < s.item_count {
                send_next(ShareSessionState {
                    next_item: (s.next_item + 1) as u64,
                    finished_bytes: if s.finished_bytes + size <= u64::MAX {
                        (s.finished_bytes + size) as u64
                    } else {
                        u64::MAX
                    },
                    ..s
                })
            } else {
                unchanged
            },
        }
    }
}

fn send_next_step(s: ShareSessionState) -> (r: (ShareSessionState, ShareAction))
    ensures
        r == send_next(s),
{
    if s.next_item < s.item_count {
        (ShareSessionState { phase: SharePhase::Sending, ..s }, ShareAction::SendItem { index: s.next_item })
    } else {
        (ShareSessionState { phase: SharePhase::Completed, ..s }, ShareAction::Finish)
    }
}

/// One decision of the sending session: the outside work reports `event`,
/// the session moves on and says what to do next.
pub fn share_session_step(state: ShareSessionState, event: ShareEvent) -> (r: (ShareSessionState, ShareAction))
    ensures
        r == share_session_next(state, event),
{
    let failed = ShareSessionState { phase: SharePhase::Failed, ..state };
    let done = match state.phase {
        SharePhase::Completed | SharePhase::Failed | SharePhase::Cancelled => true,
        _ => false,
    };
    if done {
        return (state, ShareAction::Nothing);
    }
    match event {
        ShareEvent::CancelRequested => (ShareSessionState { phase: SharePhase::Cancelled, ..state }, ShareAction::Stop),
        ShareEvent::StepFailed => (failed, ShareAction::Fail { failure: ShareFailure::Reported }),
        ShareEvent::Start => match state.phase {
            SharePhase::Preparing => if state.hosting {
                (state, ShareAction::CreateInvite)
            } else {
                (ShareSessionState { phase: SharePhase::Connecting, ..state }, ShareAction::JoinHandshake)
            },
            _ => (state, ShareAction::Nothing),
        },
        ShareEvent::InviteReady => match state.phase {
            SharePhase::Preparing if state.hosting => (
                ShareSessionState { phase: SharePhase::Waiting, ..state },
                ShareAction::AcceptPeer,
            ),
            _ => (state, ShareAction::Nothing),
        },
        ShareEvent::Accepted { port } => match state.phase {
            SharePhase::Waiting => if port == CONTROL_PORT {
                (ShareSessionState { phase: SharePhase::Connecting, ..state }, ShareAction::HostHandshake)
            } else {
                (failed, ShareAction::RejectConnection)
            },
            _ => (state, ShareAction::Nothing),
        },
        ShareEvent::AcceptTimedOut => match state.phase {
            SharePhase::Waiting => (failed, ShareAction::Fail { failure: ShareFailure::InvitationExpired }),
            _ => (state, ShareAction::Nothing),
        },
        ShareEvent::Connected => match state.phase {
            SharePhase::Connecting => send_next_step(state),
            _ => (state, ShareAction::Nothing),
        },
        ShareEvent::ItemSent { size } => match state.phase {
            SharePhase::Sending if state.next_item < state.item_count => send_next_step(ShareSessionState {
                next_item: state.next_item + 1,
                finished_bytes: state.finished_bytes.saturating_add(size),
                ..state
            }),
            _ => (state, ShareAction::Nothing),
        },
    }
}

/// Cancellation is final: once a session is cancelled, no report of the
/// outside work changes it or makes it do anything.
pub proof fn cancellation_is_final(s: ShareSessionState, e: ShareEvent)
    requires
        s.phase is Cancelled,
    ensures
        share_session_next(s, e) == (s, ShareAction::Nothing),
{
}

/// A session reaches the items only after the handshake, sends them in
/// order, and counts an item's bytes only once it went out completely.
pub proof fn items_go_out_in_order(s: ShareSessionState, size: u64)
    requires
        s.phase is Sending,
        s.next_item < s.item_count,
        s.finished_bytes + size <= u64::MAX,
    ensures
        share_session_next(s, ShareEvent::ItemSent { size }).0.next_item == s.next_item + 1,
        share_session_next(s, ShareEvent::ItemSent { size }).0.finished_bytes == s.finished_bytes + size,
        s.next_item + 1 < s.item_count ==> share_session_next(s, ShareEvent::ItemSent { size }).1
            == (ShareAction::SendItem { index: (s.next_item + 1) as u64 }),
        s.next_item + 1 == s.item_count ==> share_session_next(s, ShareEvent::ItemSent { size }).1
            == ShareAction::Finish,
{
}

} // verus!
