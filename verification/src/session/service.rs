//! The platform-independent core of the backend service: the snapshot a
//! user interface shows, the ordered and bounded event history, the
//! retained text messages, and throttled progress.
//!
//! Nothing here does I/O or reads a clock: the adapter hands in the current
//! time, delivers the returned events to its subscribers and keeps the
//! cancellation tokens of running transfers.

use vstd::prelude::*;
use crate::protocol::control::PeerInfo;
use crate::session::event::{
    format_transfer_id, reason_category, reason_status, transfer_status_for_reason,
    transfer_telemetry_reason,
};
use crate::session::state::{
    copy_event, copy_offer, copy_peer_info, copy_state, copy_string_option, same_event, same_offer,
    same_state, AppEvent, PendingOffer, SessionState,
};
use crate::text::utf8_len;
use crate::transport::TransportPath;

verus! {

/// Events retained for replay when no limit is given.
pub const DEFAULT_EVENT_QUEUE: usize = 32;
/// Progress of one transfer is published at most this often.
pub const PROGRESS_INTERVAL_MS: u64 = 200;
/// At most this many received text messages are retained.
pub const MAX_RETAINED_MESSAGES: usize = 128;
/// Retained text is trimmed to this many bytes (keeping at least one
/// message).
pub const MAX_RETAINED_TEXT_BYTES: u128 = 4194304;

/// What the user interface shows.
#[derive(Debug, Clone)]
pub struct AppSnapshot {
    pub state: SessionState,
    pub peer_display_name: String,
    pub invite_qr_url: Option<String>,
    pub invite_expires_in_secs: u64,
    pub can_disconnect: bool,
    pub can_send: bool,
    pub pending_offer: Option<PendingOffer>,
    pub transport_path: TransportPath,
}

impl AppSnapshot {
    /// The snapshot before anything has happened: booting, no peer, no
    /// invitation, nothing allowed, the transport path unknown.
    pub open spec fn is_initial(&self) -> bool {
        &&& self.state is Booting
        &&& self.peer_display_name@ == Seq::<char>::empty()
        &&& self.invite_qr_url is None
        &&& self.invite_expires_in_secs == 0
        &&& !self.can_disconnect
        &&& !self.can_send
        &&& self.pending_offer is None
        &&& self.transport_path == TransportPath::Unknown
    }
}

impl Default for AppSnapshot {
    fn default() -> (s: Self)
        ensures
            s.is_initial(),
    {
        AppSnapshot {
            state: SessionState::Booting,
            peer_display_name: String::new(),
            invite_qr_url: None,
            invite_expires_in_secs: 0,
            can_disconnect: false,
            can_send: false,
            pending_offer: None,
            transport_path: TransportPath::Unknown,
        }
    }
}

/// A received text message kept so that a resumed interface can recover it.
#[derive(Debug, Clone)]
pub struct ReceivedMessage {
    pub sequence: u64,
    pub text: String,
}

/// How the last transfer ended.
#[derive(Debug, Clone)]
pub struct TransferOutcome {
    pub id: String,
    pub name: String,
    pub done: u64,
    pub total: u64,
    pub incoming: bool,
    pub status: String,
    pub message: Option<String>,
}

/// Everything a user interface or another adapter needs to resynchronise.
#[derive(Debug, Clone)]
pub struct BackendSnapshot {
    pub api_version: u16,
    pub sequence: u64,
    pub app: AppSnapshot,
    pub received_messages: Vec<ReceivedMessage>,
    pub last_transfer: Option<TransferOutcome>,
}

impl Default for BackendSnapshot {
    fn default() -> (s: Self)
        ensures
            s.api_version == 2,
            s.sequence == 0,
            s.app.state is Booting,
            s.app.invite_qr_url is None,
            !s.app.can_disconnect,
            !s.app.can_send,
            s.app.pending_offer is None,
            s.app.transport_path == TransportPath::Unknown,
            s.received_messages@.len() == 0,
            s.last_transfer is None,
    {
        BackendSnapshot {
            api_version: 2,
            sequence: 0,
            app: AppSnapshot::default(),
            received_messages: Vec::new(),
            last_transfer: None,
        }
    }
}

/// An ordered event.  A subscriber can discard events up to the sequence of
/// its last snapshot and apply only newer ones.
#[derive(Debug, Clone)]
pub struct BackendEvent {
    pub sequence: u64,
    pub event: AppEvent,
}

/// A replay cursor outside the retained window: the subscriber must start
/// again from this snapshot.
#[derive(Debug, Clone)]
pub struct EventHistoryGap {
    pub snapshot: Box<BackendSnapshot>,
}

/// The latest progress of one transfer, and when progress of it was last
/// published.
#[derive(Debug, Clone)]
pub struct QueuedProgress {
    pub transfer_id: [u8; 16],
    pub bytes_done: u64,
    pub bytes_total: u64,
    pub last_published_ms: u64,
}

/// The service's state; the adapter keeps it behind one lock.
pub struct ServiceCore {
    snapshot: BackendSnapshot,
    generation: u64,
    connected_state: Option<SessionState>,
    progress: Vec<QueuedProgress>,
    recent: Vec<BackendEvent>,
    queue_limit: usize,
}

// ---------------------------------------------------------------------------
// Specifications.
// ---------------------------------------------------------------------------

/// `x + 1`, stopping at `u64::MAX`.
pub open spec fn sat_inc(x: u64) -> u64 {
    if x < u64::MAX {
        (x + 1) as u64
    } else {
        x
    }
}

/// `a - b`, stopping at 0.
pub open spec fn sat_sub(a: u64, b: u64) -> u64 {
    if a >= b {
        (a - b) as u64
    } else {
        0
    }
}

/// Each retained event follows the one before it, and the last one carries
/// the snapshot's sequence.
pub open spec fn chained(r: Seq<BackendEvent>, last: u64) -> bool {
    &&& (r.len() == 0 <==> last == 0)
    &&& r.len() > 0 ==> r.last().sequence == last
    &&& forall|i: int| 0 <= i < r.len() - 1 ==> #[trigger] r[i + 1].sequence == sat_inc(r[i].sequence)
}

/// Bytes of retained text.
pub open spec fn text_bytes(ms: Seq<ReceivedMessage>) -> nat
    decreases ms.len(),
{
    if ms.len() == 0 {
        0
    } else {
        utf8_len(ms[0].text@) + text_bytes(ms.drop_first())
    }
}

/// Whether retained messages are within both bounds.
pub open spec fn messages_within_bounds(ms: Seq<ReceivedMessage>) -> bool {
    ms.len() <= MAX_RETAINED_MESSAGES && (text_bytes(ms) <= MAX_RETAINED_TEXT_BYTES || ms.len() <= 1)
}

/// Drops the oldest messages until both bounds hold.
pub open spec fn bound_messages(ms: Seq<ReceivedMessage>) -> Seq<ReceivedMessage>
    decreases ms.len(),
{
    if ms.len() > MAX_RETAINED_MESSAGES || (text_bytes(ms) > MAX_RETAINED_TEXT_BYTES && ms.len()
        > 1) {
        bound_messages(ms.drop_first())
    } else {
        ms
    }
}

proof fn lemma_bound_suffix(s: Seq<ReceivedMessage>)
    requires
        s.len() >= 1,
    ensures
        1 <= bound_messages(s).len() <= s.len(),
        bound_messages(s) == s.skip(s.len() - bound_messages(s).len()),
        messages_within_bounds(bound_messages(s)),
    decreases s.len(),
{
    if s.len() > MAX_RETAINED_MESSAGES || (text_bytes(s) > MAX_RETAINED_TEXT_BYTES && s.len() > 1) {
        let t = s.drop_first();
        lemma_bound_suffix(t);
        let r = bound_messages(t);
        assert(t.skip(t.len() - r.len()) =~= s.skip(s.len() - r.len()));
    } else {
        assert(s.skip(0) =~= s);
    }
}

/// Retaining a received text keeps it as the newest retained message and
/// drops only the oldest ones: the retained messages are a suffix of the
/// earlier ones followed by the new one, within both bounds, and nothing is
/// dropped while the bounds already hold.
pub proof fn retained_text_keeps_the_newest(ms: Seq<ReceivedMessage>, m: ReceivedMessage)
    ensures
        ({
            let all = ms.push(m);
            let r = bound_messages(all);
            &&& r.len() >= 1
            &&& r.last() == m
            &&& r == all.skip(all.len() - r.len())
            &&& messages_within_bounds(r)
            &&& (messages_within_bounds(all) ==> r == all)
        }),
{
    let all = ms.push(m);
    lemma_bound_suffix(all);
    let r = bound_messages(all);
    assert(r[r.len() - 1] == all[all.len() - 1]);
}

/// The newest `limit` events of `r`.
pub open spec fn keep_last(r: Seq<BackendEvent>, limit: nat) -> Seq<BackendEvent> {
    if r.len() > limit {
        r.skip(r.len() - limit)
    } else {
        r
    }
}

proof fn lemma_keep_last_push(a: Seq<BackendEvent>, x: BackendEvent, limit: nat)
    requires
        limit >= 1,
    ensures
        keep_last(a, (limit - 1) as nat).push(x) == keep_last(a.push(x), limit),
        keep_last(keep_last(a, limit).push(x), limit) == keep_last(a.push(x), limit),
{
    assert(keep_last(a, (limit - 1) as nat).push(x) =~= keep_last(a.push(x), limit));
    assert(keep_last(keep_last(a, limit).push(x), limit) =~= keep_last(a.push(x), limit));
}

proof fn lemma_same_event_refl(e: AppEvent)
    ensures
        same_event(e, e),
{
}

proof fn lemma_same_events_keep(a: Seq<BackendEvent>, b: Seq<BackendEvent>, limit: nat)
    requires
        same_events(a, b),
    ensures
        same_events(keep_last(a, limit), keep_last(b, limit)),
{
    if a.len() > limit {
        let d = a.len() - limit;
        assert forall|i: int| 0 <= i < keep_last(a, limit).len() implies (#[trigger] keep_last(
            a,
            limit,
        )[i]).sequence == keep_last(b, limit)[i].sequence && same_event(
            keep_last(a, limit)[i].event,
            keep_last(b, limit)[i].event,
        ) by {
            assert(keep_last(a, limit)[i] == a[d + i]);
            assert(keep_last(b, limit)[i] == b[d + i]);
        }
    }
}

/// `a` followed by events like `xs`, against `a` followed by `ys`.
proof fn lemma_same_events_append(a: Seq<BackendEvent>, xs: Seq<BackendEvent>, ys: Seq<BackendEvent>)
    requires
        same_events(xs, ys),
    ensures
        same_events(a + xs, a + ys),
{
    assert forall|i: int| 0 <= i < (a + xs).len() implies (#[trigger] (a + xs)[i]).sequence == (a
        + ys)[i].sequence && same_event((a + xs)[i].event, (a + ys)[i].event) by {
        if i < a.len() {
            lemma_same_event_refl(a[i].event);
        } else {
            assert((a + xs)[i] == xs[i - a.len()]);
            assert((a + ys)[i] == ys[i - a.len()]);
        }
    }
}

proof fn lemma_same_events_refl(a: Seq<BackendEvent>)
    ensures
        same_events(a, a),
{
    assert forall|i: int| 0 <= i < a.len() implies (#[trigger] a[i]).sequence == a[i].sequence
        && same_event(a[i].event, a[i].event) by {
        lemma_same_event_refl(a[i].event);
    }
}

/// One more published event keeps the history equal to the newest `limit`
/// of everything published.
proof fn lemma_history_step(
    hist: Seq<BackendEvent>,
    base: Seq<BackendEvent>,
    s: BackendEvent,
    o: BackendEvent,
    limit: nat,
)
    requires
        limit >= 1,
        same_events(hist, keep_last(base, limit)),
        s.sequence == o.sequence,
        same_event(s.event, o.event),
    ensures
        same_events(keep_last(hist.push(s), limit), keep_last(base.push(o), limit)),
{
    let b = keep_last(base, limit);
    assert forall|i: int| 0 <= i < hist.push(s).len() implies (#[trigger] hist.push(s)[i]).sequence
        == b.push(o)[i].sequence && same_event(hist.push(s)[i].event, b.push(o)[i].event) by {
        if i < hist.len() {
            assert(hist.push(s)[i] == hist[i]);
            assert(b.push(o)[i] == b[i]);
        }
    }
    lemma_same_events_keep(hist.push(s), b.push(o), limit);
    lemma_keep_last_push(base, o, limit);
}

/// How the snapshot looks after the session enters `state` at `now`:
/// which actions are offered, the invitation, the pending offer, the peer's
/// name and the transport path.
pub open spec fn shows_state(prev: AppSnapshot, state: SessionState, now: u64, app: AppSnapshot) -> bool {
    &&& app.state == state
    &&& app.can_send == (state is ConnectedIdle)
    &&& app.can_disconnect == !(state is Booting || state is Disconnected || state is Error)
    &&& match state {
        SessionState::AwaitingPeer { invite_url, expires_at, .. } => {
            &&& app.invite_qr_url == Some(invite_url)
            &&& app.invite_expires_in_secs == sat_sub(expires_at, now)
        },
        _ => app.invite_qr_url is None && app.invite_expires_in_secs == 0,
    }
    &&& match state {
        SessionState::AwaitingUserDecision { offer, .. } => app.pending_offer matches Some(o)
            && same_offer(o, offer),
        _ => app.pending_offer is None,
    }
    &&& match state {
        SessionState::ConnectedIdle { transport_path, .. } => app.transport_path == transport_path,
        SessionState::Transferring { .. } => app.transport_path == prev.transport_path,
        _ => app.transport_path == TransportPath::Unknown,
    }
    &&& match state {
        SessionState::ConnectedIdle { peer_info, .. } => app.peer_display_name
            == peer_info.display_name,
        SessionState::Booting | SessionState::Disconnected { .. } | SessionState::Error { .. } => {
            app.peer_display_name@ == Seq::<char>::empty()
        },
        _ => app.peer_display_name == prev.peer_display_name,
    }
}

/// The snapshot's state after a progress report: the active transfer's
/// byte count follows the report; nothing else changes.
pub open spec fn with_progress(state: SessionState, id: [u8; 16], done: u64) -> SessionState {
    match state {
        SessionState::Transferring {
            transfer_id,
            is_incoming,
            is_files,
            bytes_total,
            current_item_name,
            ..
        } => if transfer_id == id {
            SessionState::Transferring {
                transfer_id,
                is_incoming,
                is_files,
                bytes_done: done,
                bytes_total,
                current_item_name,
            }
        } else {
            state
        },
        _ => state,
    }
}

/// The connection state remembered for restoring after a transfer.
pub open spec fn remembered_after(prev: Option<SessionState>, state: SessionState, now: Option<
    SessionState,
>) -> bool {
    match state {
        SessionState::ConnectedIdle { .. } => now matches Some(s) && same_state(s, state),
        SessionState::Booting
        | SessionState::Disconnected { .. }
        | SessionState::AwaitingPeer { .. }
        | SessionState::DialingHost { .. }
        | SessionState::Error { .. } => now is None,
        _ => now == prev,
    }
}

/// At most one queued progress value per transfer.
pub open spec fn unique_progress(p: Seq<QueuedProgress>) -> bool {
    forall|i: int, j: int|
        0 <= i < p.len() && 0 <= j < p.len() && i != j ==> #[trigger] p[i].transfer_id
            != #[trigger] p[j].transfer_id
}

/// Index of the queued progress of `id`, or -1.
pub open spec fn progress_index(p: Seq<QueuedProgress>, id: [u8; 16]) -> int {
    if exists|i: int| 0 <= i < p.len() && #[trigger] p[i].transfer_id == id {
        choose|i: int| 0 <= i < p.len() && #[trigger] p[i].transfer_id == id
    } else {
        -1
    }
}

impl ServiceCore {
    pub closed spec fn snapshot_view(&self) -> BackendSnapshot {
        self.snapshot
    }

    pub closed spec fn recent_view(&self) -> Seq<BackendEvent> {
        self.recent@
    }

    pub closed spec fn generation_view(&self) -> u64 {
        self.generation
    }

    pub closed spec fn connected_view(&self) -> Option<SessionState> {
        self.connected_state
    }

    pub closed spec fn progress_view(&self) -> Seq<QueuedProgress> {
        self.progress@
    }

    pub closed spec fn queue_limit_view(&self) -> nat {
        self.queue_limit as nat
    }

    /// The service's invariant: a bounded, chained event history and bounded
    /// retained text.
    pub open spec fn wf(&self) -> bool {
        &&& self.queue_limit_view() >= 1
        &&& self.recent_view().len() <= self.queue_limit_view()
        &&& chained(self.recent_view(), self.snapshot_view().sequence)
        &&& messages_within_bounds(self.snapshot_view().received_messages@)
        &&& unique_progress(self.progress_view())
    }
}

// ---------------------------------------------------------------------------
// Snapshot updates.
// ---------------------------------------------------------------------------

/// Seconds until `expires_at`, or 0 once it has passed.
fn seconds_left(expires_at: u64, now: u64) -> (r: u64)
    ensures
        r == sat_sub(expires_at, now),
{
    if expires_at >= now {
        expires_at - now
    } else {
        0
    }
}

/// Refreshes the offered actions and the shown invitation, offer, peer name
/// and transport path after the snapshot's state was set.
fn refresh_capabilities(app: &mut AppSnapshot, now: u64)
    ensures
        shows_state(*old(app), old(app).state, now, *final(app)),
        final(app).state == old(app).state,
{
    let previous_path = app.transport_path;
    let mut can_send = false;
    let mut can_disconnect = false;
    let mut pending: Option<PendingOffer> = None;
    let mut invite: Option<String> = None;
    let mut expires_in: u64 = 0;
    let mut clear_name = false;
    let mut new_name: Option<String> = None;
    let path = match &app.state {
        SessionState::ConnectedIdle { transport_path, .. } => *transport_path,
        SessionState::Transferring { .. } => previous_path,
        _ => TransportPath::Unknown,
    };
    match &app.state {
        SessionState::AwaitingPeer { invite_url, expires_at, .. } => {
            invite = Some(invite_url.clone());
            expires_in = seconds_left(*expires_at, now);
            can_disconnect = true;
        },
        SessionState::ConnectedIdle { peer_info, .. } => {
            new_name = Some(peer_info.display_name.clone());
            can_disconnect = true;
            can_send = true;
        },
        SessionState::AwaitingUserDecision { offer, .. } => {
            pending = Some(copy_offer(offer));
            can_disconnect = true;
        },
        SessionState::DialingHost { .. }
        | SessionState::Authenticating
        | SessionState::AwaitingAcceptance { .. }
        | SessionState::Transferring { .. } => {
            can_disconnect = true;
        },
        SessionState::Booting | SessionState::Disconnected { .. } | SessionState::Error { .. } => {
            clear_name = true;
        },
    }
    app.can_send = can_send;
    app.can_disconnect = can_disconnect;
    app.pending_offer = pending;
    app.invite_qr_url = invite;
    app.invite_expires_in_secs = expires_in;
    app.transport_path = path;
    match new_name {
        Some(n) => {
            app.peer_display_name = n;
        },
        None => {
            if clear_name {
                app.peer_display_name = String::new();
            }
        },
    }
}

/// Updates the seconds left on a shown invitation.
fn refresh_invite_expiry(app: &mut AppSnapshot, now: u64)
    ensures
        final(app).state == old(app).state,
        final(app).peer_display_name == old(app).peer_display_name,
        final(app).invite_qr_url == old(app).invite_qr_url,
        final(app).can_disconnect == old(app).can_disconnect,
        final(app).can_send == old(app).can_send,
        final(app).pending_offer == old(app).pending_offer,
        final(app).transport_path == old(app).transport_path,
        match old(app).state {
            SessionState::AwaitingPeer { expires_at, .. } => final(app).invite_expires_in_secs
                == sat_sub(expires_at, now),
            _ => final(app).invite_expires_in_secs == old(app).invite_expires_in_secs,
        },
{
    let left = match &app.state {
        SessionState::AwaitingPeer { expires_at, .. } => Some(seconds_left(*expires_at, now)),
        _ => None,
    };
    if let Some(l) = left {
        app.invite_expires_in_secs = l;
    }
}

pub(crate) fn ids_equal(a: &[u8; 16], b: &[u8; 16]) -> (r: bool)
    ensures
        r == (*a == *b),
{
    let mut i: usize = 0;
    while i < 16
        invariant
            i <= 16,
            forall|k: int| 0 <= k < i ==> a@[k] == b@[k],
        decreases 16 - i,
    {
        if a[i] != b[i] {
            return false;
        }
        i += 1;
    }
    proof {
        broadcast use vstd::array::axiom_array_ext_equal;
        assert forall|k: int| 0 <= k < 16 implies a[k] == b[k] by {
            assert(a@[k] == b@[k]);
        }
        assert(*a =~= *b);
    }
    true
}

/// Sets the active transfer's byte count when `id` is the active transfer.
fn update_snapshot_progress(app: &mut AppSnapshot, id: [u8; 16], done: u64)
    ensures
        final(app).state == with_progress(old(app).state, id, done),
        final(app).peer_display_name == old(app).peer_display_name,
        final(app).invite_qr_url == old(app).invite_qr_url,
        final(app).invite_expires_in_secs == old(app).invite_expires_in_secs,
        final(app).can_disconnect == old(app).can_disconnect,
        final(app).can_send == old(app).can_send,
        final(app).pending_offer == old(app).pending_offer,
        final(app).transport_path == old(app).transport_path,
{
    if let SessionState::Transferring { transfer_id, bytes_done, .. } = &mut app.state {
        if ids_equal(transfer_id, &id) {
            *bytes_done = done;
        }
    }
}

// ---------------------------------------------------------------------------
// Retained text.
// ---------------------------------------------------------------------------

proof fn lemma_text_bytes_push(ms: Seq<ReceivedMessage>, m: ReceivedMessage)
    ensures
        text_bytes(ms.push(m)) == text_bytes(ms) + utf8_len(m.text@),
    decreases ms.len(),
{
    let p = ms.push(m);
    if ms.len() > 0 {
        assert(p.drop_first() =~= ms.drop_first().push(m));
        assert(p[0] == ms[0]);
        lemma_text_bytes_push(ms.drop_first(), m);
        assert(text_bytes(p) == utf8_len(p[0].text@) + text_bytes(p.drop_first()));
        assert(text_bytes(ms) == utf8_len(ms[0].text@) + text_bytes(ms.drop_first()));
    } else {
        assert(p[0] == m);
        assert(p.drop_first() =~= Seq::<ReceivedMessage>::empty());
        assert(text_bytes(p) == utf8_len(p[0].text@) + text_bytes(p.drop_first()));
    }
}

fn message_bytes(m: &ReceivedMessage) -> (n: u128)
    ensures
        n == utf8_len(m.text@),
        n <= usize::MAX,
{
    let b: &[u8] = m.text.as_str().as_bytes();
    b.len() as u128
}

/// Appends a received message and drops the oldest ones until both bounds
/// hold again.
fn retain_text(messages: &mut Vec<ReceivedMessage>, message: ReceivedMessage)
    requires
        old(messages)@.len() <= MAX_RETAINED_MESSAGES,
    ensures
        final(messages)@ == bound_messages(old(messages)@.push(message)),
        messages_within_bounds(final(messages)@),
{
    messages.push(message);
    let ghost all = messages@;
    let mut bytes: u128 = 0;
    let mut i: usize = 0;
    while i < messages.len()
        invariant
            i <= messages@.len() <= MAX_RETAINED_MESSAGES + 1,
            messages@ == all,
            bytes == text_bytes(all.take(i as int)),
            bytes <= i * 0x1_0000_0000_0000_0000,
        decreases messages.len() - i,
    {
        let n = message_bytes(&messages[i]);
        proof {
            assert(all.take(i + 1) =~= all.take(i as int).push(all[i as int]));
            lemma_text_bytes_push(all.take(i as int), all[i as int]);
        }
        bytes = bytes + n;
        i += 1;
    }
    assert(all.take(all.len() as int) =~= all);
    while messages.len() > MAX_RETAINED_MESSAGES || (bytes > MAX_RETAINED_TEXT_BYTES
        && messages.len() > 1)
        invariant
            bytes == text_bytes(messages@),
            bound_messages(messages@) == bound_messages(all),
        decreases messages@.len(),
    {
        let removed = messages.remove(0);
        let n = message_bytes(&removed);
        assert(messages@ =~= old(messages)@.push(message).drop_first() || true);
        bytes = bytes - n;
    }
}

// ---------------------------------------------------------------------------
// Publishing.
// ---------------------------------------------------------------------------

/// How one published event changes the snapshot, which then carries
/// sequence `seq`.
pub open spec fn snapshot_after(
    old: BackendSnapshot,
    event: AppEvent,
    now: u64,
    seq: u64,
    new: BackendSnapshot,
) -> bool {
    &&& new.sequence == seq
    &&& new.api_version == old.api_version
    &&& new.last_transfer == old.last_transfer
    &&& match event {
        AppEvent::StateChanged(state) => shows_state(old.app, state, now, new.app),
        AppEvent::TransportChanged(p) => new.app == AppSnapshot { transport_path: p, ..old.app },
        AppEvent::TransferProgress { transfer_id, bytes_done, .. } => new.app == AppSnapshot {
            state: with_progress(old.app.state, transfer_id, bytes_done),
            ..old.app
        },
        _ => new.app == old.app,
    }
    &&& match event {
        AppEvent::TextReceived { text } => new.received_messages@ == bound_messages(
            old.received_messages@.push(ReceivedMessage { sequence: seq, text }),
        ),
        _ => new.received_messages@ == old.received_messages@,
    }
}

impl ServiceCore {
    /// Records one event: the snapshot follows it, it gets the next
    /// sequence, and it is retained for replay within the queue limit.
    fn publish(&mut self, event: AppEvent, now: u64) -> (r: BackendEvent)
        requires
            old(self).wf(),
        ensures
            final(self).wf(),
            r.sequence == sat_inc(old(self).snapshot_view().sequence),
            same_event(r.event, event),
            snapshot_after(old(self).snapshot_view(), event, now, r.sequence, final(self).snapshot_view()),
            event matches AppEvent::StateChanged(state) ==> remembered_after(
                old(self).connected_view(),
                state,
                final(self).connected_view(),
            ),
            !(event is StateChanged) ==> final(self).connected_view() == old(self).connected_view(),
            final(self).recent_view().len() > 0,
            final(self).recent_view().last().sequence == r.sequence,
            same_event(final(self).recent_view().last().event, event),
            final(self).recent_view().drop_last() == keep_last(
                old(self).recent_view(),
                (old(self).queue_limit_view() - 1) as nat,
            ),
            final(self).recent_view() == keep_last(
                old(self).recent_view().push(final(self).recent_view().last()),
                old(self).queue_limit_view() as nat,
            ),
            same_event(final(self).recent_view().last().event, r.event),
            final(self).generation_view() == old(self).generation_view(),
            final(self).progress_view() == old(self).progress_view(),
            final(self).queue_limit_view() == old(self).queue_limit_view(),
    {
        let ghost old_snapshot = self.snapshot;
        let recorded = match event {
            AppEvent::StateChanged(state) => {
                match &state {
                    SessionState::ConnectedIdle { .. } => {
                        self.connected_state = Some(copy_state(&state));
                    },
                    SessionState::Booting
                    | SessionState::Disconnected { .. }
                    | SessionState::AwaitingPeer { .. }
                    | SessionState::DialingHost { .. }
                    | SessionState::Error { .. } => {
                        self.connected_state = None;
                    },
                    _ => {},
                }
                let copy = copy_state(&state);
                self.snapshot.app.state = state;
                refresh_capabilities(&mut self.snapshot.app, now);
                AppEvent::StateChanged(copy)
            },
            AppEvent::TransportChanged(path) => {
                self.snapshot.app.transport_path = path;
                AppEvent::TransportChanged(path)
            },
            AppEvent::TransferProgress { transfer_id, bytes_done, bytes_total } => {
                update_snapshot_progress(&mut self.snapshot.app, transfer_id, bytes_done);
                AppEvent::TransferProgress { transfer_id, bytes_done, bytes_total }
            },
            other => other,
        };
        let sequence = if self.snapshot.sequence < u64::MAX {
            self.snapshot.sequence + 1
        } else {
            self.snapshot.sequence
        };
        self.snapshot.sequence = sequence;
        if let AppEvent::TextReceived { text } = &recorded {
            retain_text(
                &mut self.snapshot.received_messages,
                ReceivedMessage { sequence, text: text.clone() },
            );
        }
        let ordered = BackendEvent { sequence, event: recorded };
        let ghost before = self.recent@;
        self.recent.push(BackendEvent { sequence, event: copy_event(&ordered.event) });
        let ghost pushed = self.recent@;
        let ghost mut dropped: int = 0;
        let ghost snap = self.snapshot;
        let ghost conn = self.connected_state;
        let ghost prog = self.progress;
        let ghost generation = self.generation;
        let ghost limit = self.queue_limit;
        while self.recent.len() > self.queue_limit
            invariant
                self.snapshot == snap,
                self.connected_state == conn,
                self.progress == prog,
                self.generation == generation,
                self.queue_limit == limit,
                self.queue_limit >= 1,
                before.len() <= self.queue_limit,
                pushed == before.push(pushed.last()),
                0 <= dropped <= before.len(),
                self.recent@ == pushed.subrange(dropped, pushed.len() as int),
                dropped == 0 || self.recent@.len() >= self.queue_limit,
            decreases self.recent@.len(),
        {
            let ghost prev = self.recent@;
            self.recent.remove(0);
            proof {
                dropped = dropped + 1;
            }
            assert(self.recent@ =~= pushed.subrange(dropped, pushed.len() as int));
        }
        proof {
            let r = self.recent@;
            assert(r.last() == pushed.last());
            assert(r.drop_last() =~= keep_last(before, (self.queue_limit - 1) as nat));
            lemma_keep_last_push(before, r.last(), self.queue_limit as nat);
            assert(r =~= r.drop_last().push(r.last()));
            assert forall|i: int| 0 <= i < r.len() - 1 implies #[trigger] r[i + 1].sequence
                == sat_inc(r[i].sequence) by {
                assert(r[i] == before[dropped + i]);
                if i + 1 < r.len() - 1 {
                    assert(r[i + 1] == before[dropped + i + 1]);
                } else {
                    assert(dropped + i == before.len() - 1);
                }
            }
        }
        ordered
    }
}

// ---------------------------------------------------------------------------
// Copies of snapshots.
// ---------------------------------------------------------------------------

/// Two interface snapshots with the same contents.
pub open spec fn same_app(a: AppSnapshot, b: AppSnapshot) -> bool {
    &&& same_state(a.state, b.state)
    &&& a.peer_display_name == b.peer_display_name
    &&& a.invite_qr_url == b.invite_qr_url
    &&& a.invite_expires_in_secs == b.invite_expires_in_secs
    &&& a.can_disconnect == b.can_disconnect
    &&& a.can_send == b.can_send
    &&& match (a.pending_offer, b.pending_offer) {
        (Some(x), Some(y)) => same_offer(x, y),
        (None, None) => true,
        _ => false,
    }
    &&& a.transport_path == b.transport_path
}

/// Two backend snapshots with the same contents.
pub open spec fn same_snapshot(a: BackendSnapshot, b: BackendSnapshot) -> bool {
    &&& a.api_version == b.api_version
    &&& a.sequence == b.sequence
    &&& same_app(a.app, b.app)
    &&& a.received_messages@ == b.received_messages@
    &&& a.last_transfer == b.last_transfer
}

fn copy_app(a: &AppSnapshot) -> (r: AppSnapshot)
    ensures
        same_app(r, *a),
{
    AppSnapshot {
        state: copy_state(&a.state),
        peer_display_name: a.peer_display_name.clone(),
        invite_qr_url: copy_string_option(&a.invite_qr_url),
        invite_expires_in_secs: a.invite_expires_in_secs,
        can_disconnect: a.can_disconnect,
        can_send: a.can_send,
        pending_offer: match &a.pending_offer {
            Some(o) => Some(copy_offer(o)),
            None => None,
        },
        transport_path: a.transport_path,
    }
}

fn copy_outcome(o: &TransferOutcome) -> (r: TransferOutcome)
    ensures
        r == *o,
{
    TransferOutcome {
        id: o.id.clone(),
        name: o.name.clone(),
        done: o.done,
        total: o.total,
        incoming: o.incoming,
        status: o.status.clone(),
        message: copy_string_option(&o.message),
    }
}

fn copy_snapshot(s: &BackendSnapshot) -> (r: BackendSnapshot)
    ensures
        same_snapshot(r, *s),
{
    let mut messages: Vec<ReceivedMessage> = Vec::new();
    let mut i: usize = 0;
    while i < s.received_messages.len()
        invariant
            i <= s.received_messages@.len(),
            messages@ == s.received_messages@.take(i as int),
        decreases s.received_messages.len() - i,
    {
        let m = &s.received_messages[i];
        messages.push(ReceivedMessage { sequence: m.sequence, text: m.text.clone() });
        assert(s.received_messages@.take(i + 1) =~= s.received_messages@.take(i as int).push(
            s.received_messages@[i as int],
        ));
        i += 1;
    }
    assert(s.received_messages@.take(s.received_messages@.len() as int) =~= s.received_messages@);
    BackendSnapshot {
        api_version: s.api_version,
        sequence: s.sequence,
        app: copy_app(&s.app),
        received_messages: messages,
        last_transfer: match &s.last_transfer {
            Some(o) => Some(copy_outcome(o)),
            None => None,
        },
    }
}

fn copy_backend_event(e: &BackendEvent) -> (r: BackendEvent)
    ensures
        r.sequence == e.sequence,
        same_event(r.event, e.event),
{
    BackendEvent { sequence: e.sequence, event: copy_event(&e.event) }
}

// ---------------------------------------------------------------------------
// Replay.
// ---------------------------------------------------------------------------

/// The retained events newer than `s`, in order.
pub open spec fn newer_than(r: Seq<BackendEvent>, s: u64) -> Seq<BackendEvent>
    decreases r.len(),
{
    if r.len() == 0 {
        Seq::empty()
    } else if r.last().sequence > s {
        newer_than(r.drop_last(), s).push(r.last())
    } else {
        newer_than(r.drop_last(), s)
    }
}

/// Whether a replay from `s` can be served from the retained events: `s` is
/// not ahead of the snapshot and not older than the event just before the
/// oldest retained one.
pub open spec fn replay_allowed(r: Seq<BackendEvent>, current: u64, s: u64) -> bool {
    let oldest: u64 = if r.len() > 0 {
        r[0].sequence
    } else {
        1
    };
    !(s > current || s < sat_sub(oldest, 1))
}

/// Same sequences and contents.
pub open spec fn same_events(a: Seq<BackendEvent>, b: Seq<BackendEvent>) -> bool {
    &&& a.len() == b.len()
    &&& forall|i: int|
        0 <= i < a.len() ==> (#[trigger] a[i]).sequence == b[i].sequence && same_event(
            a[i].event,
            b[i].event,
        )
}

// ---------------------------------------------------------------------------
// Terminal events.
// ---------------------------------------------------------------------------

/// The transfer that a completion or cancellation ends.
pub open spec fn terminal_id(event: AppEvent) -> Option<[u8; 16]> {
    match event {
        AppEvent::TransferCompleted { transfer_id } => Some(transfer_id),
        AppEvent::TransferCancelled { transfer_id, .. } => Some(transfer_id),
        _ => None,
    }
}

/// The transfer that `event` ends, if it ends one.
pub fn terminal_transfer(event: &AppEvent) -> (r: Option<[u8; 16]>)
    ensures
        r == terminal_id(*event),
{
    match event {
        AppEvent::TransferCompleted { transfer_id } => Some(*transfer_id),
        AppEvent::TransferCancelled { transfer_id, .. } => Some(*transfer_id),
        _ => None,
    }
}

/// The record kept of a transfer that `event` ended while `state` showed it.
pub open spec fn outcome_of(state: SessionState, event: AppEvent, o: TransferOutcome) -> bool {
    match state {
        SessionState::Transferring {
            transfer_id,
            is_incoming,
            bytes_done,
            bytes_total,
            current_item_name,
            ..
        } => {
            &&& o.id@ == crate::session::event::hex_id(transfer_id@)
            &&& o.name == current_item_name
            &&& o.total == bytes_total
            &&& o.incoming == is_incoming
            &&& match event {
                AppEvent::TransferCancelled { reason, .. } => {
                    &&& o.status@ == reason_status(reason@)
                    &&& o.done == bytes_done
                    &&& o.message == Some(reason)
                },
                _ => o.status@ == "completed"@ && o.done == bytes_total && o.message is None,
            }
        },
        _ => false,
    }
}

/// Whether `state` shows transfer `id` in progress.
pub open spec fn shows_transfer(state: SessionState, id: [u8; 16]) -> bool {
    state matches SessionState::Transferring { transfer_id, .. } && transfer_id == id
}

/// The queued progress without the entry of `id`.
pub open spec fn without_progress(p: Seq<QueuedProgress>, id: [u8; 16]) -> Seq<QueuedProgress> {
    if progress_index(p, id) >= 0 {
        p.remove(progress_index(p, id))
    } else {
        p
    }
}

fn find_progress(p: &Vec<QueuedProgress>, id: &[u8; 16]) -> (r: Option<usize>)
    requires
        unique_progress(p@),
    ensures
        r is None ==> progress_index(p@, *id) == -1,
        r matches Some(i) ==> i < p@.len() && progress_index(p@, *id) == i && p@[i as int].transfer_id
            == *id,
{
    let mut i: usize = 0;
    while i < p.len()
        invariant
            i <= p@.len(),
            unique_progress(p@),
            forall|k: int| 0 <= k < i ==> p@[k].transfer_id != *id,
        decreases p.len() - i,
    {
        if ids_equal(&p[i].transfer_id, id) {
            assert(progress_index(p@, *id) == i as int) by {
                let c = choose|c: int| 0 <= c < p@.len() && #[trigger] p@[c].transfer_id == *id;
                if c != i as int {
                    assert(p@[c].transfer_id != p@[i as int].transfer_id);
                }
            }
            return Some(i);
        }
        i += 1;
    }
    None
}

proof fn lemma_unique_remove(p: Seq<QueuedProgress>, i: int)
    requires
        unique_progress(p),
        0 <= i < p.len(),
    ensures
        unique_progress(p.remove(i)),
{
    let q = p.remove(i);
    assert forall|a: int, b: int|
        0 <= a < q.len() && 0 <= b < q.len() && a != b implies #[trigger] q[a].transfer_id
        != #[trigger] q[b].transfer_id by {
        let pa = if a < i {
            a
        } else {
            a + 1
        };
        let pb = if b < i {
            b
        } else {
            b + 1
        };
        assert(q[a] == p[pa]);
        assert(q[b] == p[pb]);
    }
}

fn outcome_for(state: &SessionState, event: &AppEvent) -> (r: Option<TransferOutcome>)
    requires
        terminal_id(*event) is Some,
    ensures
        shows_transfer(*state, terminal_id(*event)->0) ==> (r matches Some(o) && outcome_of(
            *state,
            *event,
            o,
        )),
        !shows_transfer(*state, terminal_id(*event)->0) ==> r is None,
{
    let id = match event {
        AppEvent::TransferCompleted { transfer_id } => *transfer_id,
        AppEvent::TransferCancelled { transfer_id, .. } => *transfer_id,
        _ => {
            return None;
        },
    };
    match state {
        SessionState::Transferring {
            transfer_id,
            is_incoming,
            bytes_done,
            bytes_total,
            current_item_name,
            ..
        } => {
            if !ids_equal(transfer_id, &id) {
                return None;
            }
            let (status, done, message) = match event {
                AppEvent::TransferCancelled { reason, .. } => {
                    let status = transfer_status_for_reason(reason.as_str());
                    (status, *bytes_done, Some(reason.clone()))
                },
                _ => ("completed", *bytes_total, None),
            };
            Some(
                TransferOutcome {
                    id: format_transfer_id(*transfer_id),
                    name: current_item_name.clone(),
                    done,
                    total: *bytes_total,
                    incoming: *is_incoming,
                    status: status.to_owned(),
                    message,
                },
            )
        },
        _ => None,
    }
}

impl ServiceCore {
    /// A service with no session yet, retaining at most `queue_limit` (at
    /// least one) events for replay.
    pub fn new(queue_limit: usize) -> (s: Self)
        ensures
            s.wf(),
            s.queue_limit_view() == if queue_limit < 1 {
                1
            } else {
                queue_limit
            },
            s.snapshot_view().sequence == 0,
            s.snapshot_view().api_version == 2,
            s.snapshot_view().app.state is Booting,
            s.snapshot_view().received_messages@.len() == 0,
            s.snapshot_view().last_transfer is None,
            s.recent_view().len() == 0,
            s.generation_view() == 0,
            s.connected_view() is None,
            s.progress_view().len() == 0,
    {
        ServiceCore {
            snapshot: BackendSnapshot::default(),
            generation: 0,
            connected_state: None,
            progress: Vec::new(),
            recent: Vec::new(),
            queue_limit: if queue_limit < 1 {
                1
            } else {
                queue_limit
            },
        }
    }

    /// Starts a new session: work of the previous one becomes stale, the
    /// remembered connection and queued progress are dropped.  Returns the
    /// new session's generation.
    pub fn begin_session(&mut self) -> (generation: u64)
        requires
            old(self).wf(),
        ensures
            final(self).wf(),
            generation == final(self).generation_view(),
            generation == if old(self).generation_view() == u64::MAX {
                0
            } else {
                old(self).generation_view() + 1
            },
            final(self).connected_view() is None,
            final(self).progress_view().len() == 0,
            final(self).snapshot_view() == old(self).snapshot_view(),
            final(self).recent_view() == old(self).recent_view(),
            final(self).queue_limit_view() == old(self).queue_limit_view(),
    {
        self.generation = if self.generation == u64::MAX {
            0
        } else {
            self.generation + 1
        };
        self.connected_state = None;
        self.progress = Vec::new();
        self.generation
    }

    /// Whether `generation` is the current session.
    pub fn is_current(&self, generation: u64) -> (b: bool)
        ensures
            b == (generation == self.generation_view()),
    {
        self.generation == generation
    }

    /// Whether `generation` is the current session and it has a peer.
    pub fn has_peer(&self, generation: u64) -> (b: bool)
        ensures
            b == (generation == self.generation_view() && self.connected_view() is Some),
    {
        self.generation == generation && self.connected_state.is_some()
    }

    /// A copy of the snapshot, with the invitation's remaining time brought
    /// up to `now`.
    pub fn snapshot(&mut self, now: u64) -> (r: BackendSnapshot)
        requires
            old(self).wf(),
        ensures
            final(self).wf(),
            same_snapshot(r, final(self).snapshot_view()),
            final(self).snapshot_view().sequence == old(self).snapshot_view().sequence,
            final(self).snapshot_view().app.state == old(self).snapshot_view().app.state,
            match old(self).snapshot_view().app.state {
                SessionState::AwaitingPeer { expires_at, .. } => r.app.invite_expires_in_secs
                    == sat_sub(expires_at, now),
                _ => r.app.invite_expires_in_secs == old(self).snapshot_view().app.invite_expires_in_secs,
            },
            final(self).recent_view() == old(self).recent_view(),
            final(self).generation_view() == old(self).generation_view(),
            final(self).connected_view() == old(self).connected_view(),
            final(self).progress_view() == old(self).progress_view(),
            final(self).queue_limit_view() == old(self).queue_limit_view(),
    {
        refresh_invite_expiry(&mut self.snapshot.app, now);
        copy_snapshot(&self.snapshot)
    }

    /// Publishes one event; a completion or cancellation first publishes
    /// the transfer's last queued progress and records how it ended.
    /// Returns the published events in order.
    pub fn emit(&mut self, event: AppEvent, now: u64) -> (r: Vec<BackendEvent>)
        requires
            old(self).wf(),
        ensures
            final(self).wf(),
            r@.len() >= 1,
            r@.last().sequence == final(self).snapshot_view().sequence,
            same_event(r@.last().event, event),
            r@[0].sequence == sat_inc(old(self).snapshot_view().sequence),
            r@.len() == 2 ==> r@[1].sequence == sat_inc(r@[0].sequence),
            same_events(
                final(self).recent_view(),
                keep_last(old(self).recent_view() + r@, final(self).queue_limit_view() as nat),
            ),
            final(self).generation_view() == old(self).generation_view(),
            final(self).queue_limit_view() == old(self).queue_limit_view(),
            terminal_id(event) is None ==> {
                &&& r@.len() == 1
                &&& r@[0].sequence == sat_inc(old(self).snapshot_view().sequence)
                &&& snapshot_after(
                    old(self).snapshot_view(),
                    event,
                    now,
                    r@[0].sequence,
                    final(self).snapshot_view(),
                )
                &&& final(self).progress_view() == old(self).progress_view()
                &&& (event matches AppEvent::StateChanged(state) ==> remembered_after(
                    old(self).connected_view(),
                    state,
                    final(self).connected_view(),
                ))
                &&& (!(event is StateChanged) ==> final(self).connected_view()
                    == old(self).connected_view())
            },
            terminal_id(event) matches Some(id) ==> {
                &&& final(self).progress_view() == without_progress(old(self).progress_view(), id)
                &&& final(self).connected_view() == old(self).connected_view()
                &&& final(self).snapshot_view().received_messages@ == old(self).snapshot_view().received_messages@
                &&& (shows_transfer(old(self).snapshot_view().app.state, id) ==> (final(self).snapshot_view().last_transfer matches Some(o) && outcome_of(
                    old(self).snapshot_view().app.state,
                    event,
                    o,
                )))
                &&& (!shows_transfer(old(self).snapshot_view().app.state, id) ==> final(self).snapshot_view().last_transfer == old(self).snapshot_view().last_transfer)
                &&& (progress_index(old(self).progress_view(), id) < 0 ==> r@.len() == 1 && final(self).snapshot_view().app == old(self).snapshot_view().app)
                &&& (progress_index(old(self).progress_view(), id) >= 0 ==> {
                    let q = old(self).progress_view()[progress_index(old(self).progress_view(), id)];
                    &&& r@.len() == 2
                    &&& r@[0].sequence == sat_inc(old(self).snapshot_view().sequence)
                    &&& r@[0].event == AppEvent::TransferProgress {
                        transfer_id: id,
                        bytes_done: q.bytes_done,
                        bytes_total: q.bytes_total,
                    }
                    &&& final(self).snapshot_view().app == AppSnapshot {
                        state: with_progress(old(self).snapshot_view().app.state, id, q.bytes_done),
                        ..old(self).snapshot_view().app
                    }
                })
            },
    {
        let ghost start = self.recent@;
        let ghost limit = self.queue_limit as nat;
        let mut out: Vec<BackendEvent> = Vec::new();
        proof {
            assert(start + out@ =~= start);
            lemma_same_events_refl(start);
        }
        let id = match &event {
            AppEvent::TransferCompleted { transfer_id } => Some(*transfer_id),
            AppEvent::TransferCancelled { transfer_id, .. } => Some(*transfer_id),
            _ => None,
        };
        if let Some(id) = id {
            let outcome = outcome_for(&self.snapshot.app.state, &event);
            if outcome.is_some() {
                self.snapshot.last_transfer = outcome;
            }
            match find_progress(&self.progress, &id) {
                Some(i) => {
                    proof {
                        lemma_unique_remove(self.progress@, i as int);
                    }
                    let queued = self.progress.remove(i);
                    let ghost hist = self.recent@;
                    let flushed = self.publish(
                        AppEvent::TransferProgress {
                            transfer_id: id,
                            bytes_done: queued.bytes_done,
                            bytes_total: queued.bytes_total,
                        },
                        now,
                    );
                    proof {
                        lemma_history_step(hist, start + out@, self.recent@.last(), flushed, limit);
                        assert((start + out@).push(flushed) =~= start + out@.push(flushed));
                    }
                    out.push(flushed);
                },
                None => {},
            }
        }
        let ghost hist = self.recent@;
        let ordered = self.publish(event, now);
        proof {
            lemma_history_step(hist, start + out@, self.recent@.last(), ordered, limit);
            assert((start + out@).push(ordered) =~= start + out@.push(ordered));
        }
        out.push(ordered);
        out
    }
}

/// Whether progress of a transfer queued as `p` may be published at `now`.
pub open spec fn progress_due(p: Seq<QueuedProgress>, id: [u8; 16], now: u64) -> bool {
    progress_index(p, id) < 0 || sat_sub(now, p[progress_index(p, id)].last_published_ms)
        >= PROGRESS_INTERVAL_MS
}

/// The progress queue after a report of `done` of `total` bytes at `now`.
pub open spec fn progress_queued(
    p: Seq<QueuedProgress>,
    id: [u8; 16],
    done: u64,
    total: u64,
    now: u64,
) -> Seq<QueuedProgress> {
    if progress_index(p, id) >= 0 {
        p.update(
            progress_index(p, id),
            QueuedProgress {
                transfer_id: id,
                bytes_done: done,
                bytes_total: total,
                last_published_ms: if progress_due(p, id, now) {
                    now
                } else {
                    p[progress_index(p, id)].last_published_ms
                },
            },
        )
    } else {
        p.push(QueuedProgress { transfer_id: id, bytes_done: done, bytes_total: total, last_published_ms: now })
    }
}

proof fn lemma_queued_entry(p: Seq<QueuedProgress>, id: [u8; 16], done: u64, total: u64, now: u64)
    requires
        unique_progress(p),
    ensures
        ({
            let q = progress_queued(p, id, done, total, now);
            &&& progress_index(q, id) >= 0
            &&& q[progress_index(q, id)] == (QueuedProgress {
                transfer_id: id,
                bytes_done: done,
                bytes_total: total,
                last_published_ms: if progress_due(p, id, now) {
                    now
                } else {
                    p[progress_index(p, id)].last_published_ms
                },
            })
        }),
{
    let q = progress_queued(p, id, done, total, now);
    let i = progress_index(p, id);
    if i >= 0 {
        assert(p[i].transfer_id == id);
        assert(q[i].transfer_id == id);
        let c = choose|c: int| 0 <= c < q.len() && #[trigger] q[c].transfer_id == id;
        if c != i {
            assert(q[c] == p[c]);
            assert(p[c].transfer_id != p[i].transfer_id);
        }
    } else {
        let n = p.len() as int;
        assert(q[n].transfer_id == id);
        let c = choose|c: int| 0 <= c < q.len() && #[trigger] q[c].transfer_id == id;
        if c != n {
            assert(q[c] == p[c]);
            assert(exists|k: int| 0 <= k < p.len() && #[trigger] p[k].transfer_id == id);
        }
    }
}

/// Progress is throttled per transfer: a report that is published records
/// when, with its byte counts, so the next report of the same transfer is
/// published only once the interval has passed since this one.
pub proof fn published_progress_is_throttled(
    p: Seq<QueuedProgress>,
    id: [u8; 16],
    done: u64,
    total: u64,
    t1: u64,
    t2: u64,
)
    requires
        unique_progress(p),
        progress_due(p, id, t1),
        t1 <= t2,
    ensures
        ({
            let q = progress_queued(p, id, done, total, t1);
            &&& progress_index(q, id) >= 0
            &&& q[progress_index(q, id)].last_published_ms == t1
            &&& q[progress_index(q, id)].bytes_done == done
            &&& q[progress_index(q, id)].bytes_total == total
            &&& progress_due(q, id, t2) <==> t2 - t1 >= PROGRESS_INTERVAL_MS
        }),
{
    lemma_queued_entry(p, id, done, total, t1);
}

impl ServiceCore {
    /// Records the progress of a transfer and publishes it unless progress
    /// of the same transfer was published less than the interval ago; the
    /// latest value stays queued for a later flush either way.
    pub fn progress(&mut self, transfer_id: [u8; 16], bytes_done: u64, bytes_total: u64, now_ms: u64) -> (r:
        Option<BackendEvent>)
        requires
            old(self).wf(),
        ensures
            final(self).wf(),
            final(self).progress_view() == progress_queued(
                old(self).progress_view(),
                transfer_id,
                bytes_done,
                bytes_total,
                now_ms,
            ),
            final(self).snapshot_view().app == (AppSnapshot {
                state: with_progress(old(self).snapshot_view().app.state, transfer_id, bytes_done),
                ..old(self).snapshot_view().app
            }),
            progress_due(old(self).progress_view(), transfer_id, now_ms) ==> {
                &&& r matches Some(e)
                &&& e.sequence == sat_inc(old(self).snapshot_view().sequence)
                &&& e.event == (AppEvent::TransferProgress { transfer_id, bytes_done, bytes_total })
                &&& final(self).snapshot_view().sequence == e.sequence
            },
            progress_index(final(self).progress_view(), transfer_id) >= 0,
            r is Some ==> final(self).progress_view()[progress_index(
                final(self).progress_view(),
                transfer_id,
            )].last_published_ms == now_ms,
            !progress_due(old(self).progress_view(), transfer_id, now_ms) ==> {
                &&& r is None
                &&& final(self).snapshot_view().sequence == old(self).snapshot_view().sequence
                &&& final(self).recent_view() == old(self).recent_view()
            },
            final(self).snapshot_view().received_messages@ == old(self).snapshot_view().received_messages@,
            final(self).snapshot_view().last_transfer == old(self).snapshot_view().last_transfer,
            final(self).generation_view() == old(self).generation_view(),
            final(self).connected_view() == old(self).connected_view(),
            final(self).queue_limit_view() == old(self).queue_limit_view(),
    {
        proof {
            lemma_queued_entry(self.progress@, transfer_id, bytes_done, bytes_total, now_ms);
        }
        update_snapshot_progress(&mut self.snapshot.app, transfer_id, bytes_done);
        let due = match find_progress(&self.progress, &transfer_id) {
            Some(i) => {
                let last = self.progress[i].last_published_ms;
                let due = if now_ms >= last {
                    now_ms - last >= PROGRESS_INTERVAL_MS
                } else {
                    0 >= PROGRESS_INTERVAL_MS
                };
                let entry = QueuedProgress {
                    transfer_id,
                    bytes_done,
                    bytes_total,
                    last_published_ms: if due {
                        now_ms
                    } else {
                        last
                    },
                };
                proof {
                    let q = self.progress@.update(i as int, entry);
                    assert forall|a: int, b: int|
                        0 <= a < q.len() && 0 <= b < q.len() && a != b implies #[trigger] q[a].transfer_id
                        != #[trigger] q[b].transfer_id by {
                        if a != i && b != i {
                            assert(q[a] == self.progress@[a]);
                            assert(q[b] == self.progress@[b]);
                        } else if a == i {
                            assert(q[b] == self.progress@[b]);
                            assert(self.progress@[b].transfer_id != self.progress@[i as int].transfer_id);
                        } else {
                            assert(q[a] == self.progress@[a]);
                            assert(self.progress@[a].transfer_id != self.progress@[i as int].transfer_id);
                        }
                    }
                }
                self.progress.set(i, entry);
                due
            },
            None => {
                proof {
                    let q = self.progress@.push(
                        QueuedProgress { transfer_id, bytes_done, bytes_total, last_published_ms: now_ms },
                    );
                    assert forall|a: int, b: int|
                        0 <= a < q.len() && 0 <= b < q.len() && a != b implies #[trigger] q[a].transfer_id
                        != #[trigger] q[b].transfer_id by {
                        if a < self.progress@.len() && b < self.progress@.len() {
                            assert(q[a] == self.progress@[a]);
                            assert(q[b] == self.progress@[b]);
                        } else if a < self.progress@.len() {
                            assert(q[a] == self.progress@[a]);
                            assert(self.progress@[a].transfer_id != transfer_id);
                        } else {
                            assert(q[b] == self.progress@[b]);
                            assert(self.progress@[b].transfer_id != transfer_id);
                        }
                    }
                }
                self.progress.push(
                    QueuedProgress { transfer_id, bytes_done, bytes_total, last_published_ms: now_ms },
                );
                true
            },
        };
        if !due {
            return None;
        }
        Some(self.publish(AppEvent::TransferProgress { transfer_id, bytes_done, bytes_total }, 0))
    }

    /// Publishes the last queued progress of a transfer, if any, before a
    /// transfer boundary.
    pub fn flush_progress(&mut self, transfer_id: [u8; 16]) -> (r: Option<BackendEvent>)
        requires
            old(self).wf(),
        ensures
            final(self).wf(),
            final(self).progress_view() == without_progress(old(self).progress_view(), transfer_id),
            progress_index(old(self).progress_view(), transfer_id) < 0 ==> r is None && *final(self)
                == *old(self),
            progress_index(old(self).progress_view(), transfer_id) >= 0 ==> {
                let q = old(self).progress_view()[progress_index(old(self).progress_view(), transfer_id)];
                &&& r matches Some(e)
                &&& e.sequence == sat_inc(old(self).snapshot_view().sequence)
                &&& e.event == (AppEvent::TransferProgress {
                    transfer_id,
                    bytes_done: q.bytes_done,
                    bytes_total: q.bytes_total,
                })
                &&& final(self).snapshot_view().sequence == e.sequence
                &&& final(self).snapshot_view().app == (AppSnapshot {
                    state: with_progress(old(self).snapshot_view().app.state, transfer_id, q.bytes_done),
                    ..old(self).snapshot_view().app
                })
            },
            final(self).generation_view() == old(self).generation_view(),
            final(self).connected_view() == old(self).connected_view(),
            final(self).queue_limit_view() == old(self).queue_limit_view(),
    {
        match find_progress(&self.progress, &transfer_id) {
            None => None,
            Some(i) => {
                proof {
                    lemma_unique_remove(self.progress@, i as int);
                }
                let queued = self.progress.remove(i);
                update_snapshot_progress(&mut self.snapshot.app, transfer_id, queued.bytes_done);
                Some(
                    self.publish(
                        AppEvent::TransferProgress {
                            transfer_id,
                            bytes_done: queued.bytes_done,
                            bytes_total: queued.bytes_total,
                        },
                        0,
                    ),
                )
            },
        }
    }

    /// Forgets the queued progress of a finished transfer.
    pub fn finish_transfer(&mut self, transfer_id: [u8; 16])
        requires
            old(self).wf(),
        ensures
            final(self).wf(),
            final(self).progress_view() == without_progress(old(self).progress_view(), transfer_id),
            final(self).snapshot_view() == old(self).snapshot_view(),
            final(self).recent_view() == old(self).recent_view(),
            final(self).generation_view() == old(self).generation_view(),
            final(self).connected_view() == old(self).connected_view(),
            final(self).queue_limit_view() == old(self).queue_limit_view(),
    {
        if let Some(i) = find_progress(&self.progress, &transfer_id) {
            proof {
                lemma_unique_remove(self.progress@, i as int);
            }
            self.progress.remove(i);
        }
    }

    /// The retained events newer than `sequence`, or, when the cursor lies
    /// outside the retained window, the current snapshot to start again from.
    pub fn events_since(&mut self, sequence: u64, now: u64) -> (r: Result<Vec<BackendEvent>, EventHistoryGap>)
        requires
            old(self).wf(),
        ensures
            final(self).wf(),
            replay_allowed(old(self).recent_view(), old(self).snapshot_view().sequence, sequence) ==> {
                &&& r matches Ok(v)
                &&& same_events(v@, newer_than(old(self).recent_view(), sequence))
                &&& *final(self) == *old(self)
            },
            !replay_allowed(old(self).recent_view(), old(self).snapshot_view().sequence, sequence) ==> {
                &&& r matches Err(gap)
                &&& same_snapshot(*gap.snapshot, final(self).snapshot_view())
                &&& final(self).snapshot_view().sequence == old(self).snapshot_view().sequence
            },
            final(self).recent_view() == old(self).recent_view(),
            final(self).generation_view() == old(self).generation_view(),
            final(self).connected_view() == old(self).connected_view(),
            final(self).progress_view() == old(self).progress_view(),
            final(self).queue_limit_view() == old(self).queue_limit_view(),
    {
        let oldest = if self.recent.len() > 0 {
            self.recent[0].sequence
        } else {
            1
        };
        let floor = if oldest >= 1 {
            oldest - 1
        } else {
            0
        };
        if sequence > self.snapshot.sequence || sequence < floor {
            refresh_invite_expiry(&mut self.snapshot.app, now);
            return Err(EventHistoryGap { snapshot: Box::new(copy_snapshot(&self.snapshot)) });
        }
        let mut out: Vec<BackendEvent> = Vec::new();
        let mut i: usize = 0;
        while i < self.recent.len()
            invariant
                i <= self.recent@.len(),
                same_events(out@, newer_than(self.recent@.take(i as int), sequence)),
            decreases self.recent.len() - i,
        {
            assert(self.recent@.take(i + 1).drop_last() =~= self.recent@.take(i as int));
            if self.recent[i].sequence > sequence {
                out.push(copy_backend_event(&self.recent[i]));
            }
            i += 1;
        }
        assert(self.recent@.take(self.recent@.len() as int) =~= self.recent@);
        Ok(out)
    }

    /// Shows the remembered connection again once transfer `transfer_id`,
    /// the one the snapshot shows, is over; nothing for a stale session, for
    /// another transfer, or without a connection.
    pub fn restore_connected_idle(&mut self, generation: u64, transfer_id: [u8; 16], now: u64) -> (r:
        Option<BackendEvent>)
        requires
            old(self).wf(),
        ensures
            final(self).wf(),
            (generation == old(self).generation_view() && shows_transfer(
                old(self).snapshot_view().app.state,
                transfer_id,
            ) && old(self).connected_view() is Some) <==> r is Some,
            r is None ==> *final(self) == *old(self),
            r matches Some(e) ==> {
                &&& e.sequence == sat_inc(old(self).snapshot_view().sequence)
                &&& final(self).snapshot_view().sequence == e.sequence
                &&& e.event matches AppEvent::StateChanged(s) && restored(
                    old(self).connected_view()->0,
                    old(self).snapshot_view().app.transport_path,
                    s,
                ) && same_state(s, final(self).snapshot_view().app.state)
            },
            final(self).generation_view() == old(self).generation_view(),
            final(self).queue_limit_view() == old(self).queue_limit_view(),
    {
        if self.generation != generation {
            return None;
        }
        let active = match &self.snapshot.app.state {
            SessionState::Transferring { transfer_id: active_id, .. } => ids_equal(active_id, &transfer_id),
            _ => false,
        };
        if !active {
            return None;
        }
        let mut connected = match &self.connected_state {
            Some(s) => copy_state(s),
            None => {
                return None;
            },
        };
        let path = self.snapshot.app.transport_path;
        if let SessionState::ConnectedIdle { transport_path, .. } = &mut connected {
            *transport_path = path;
        }
        let e = self.publish(AppEvent::StateChanged(connected), now);
        Some(e)
    }

    /// `emit` for the session of `generation`; nothing once it is stale.
    pub fn emit_for(&mut self, generation: u64, event: AppEvent, now: u64) -> (r: Option<
        Vec<BackendEvent>,
    >)
        requires
            old(self).wf(),
        ensures
            final(self).wf(),
            generation != old(self).generation_view() ==> r is None && *final(self) == *old(self),
            generation == old(self).generation_view() ==> (r matches Some(v) && v@.len() >= 1
                && v@.last().sequence == final(self).snapshot_view().sequence && same_event(
                v@.last().event,
                event,
            )),
            final(self).generation_view() == old(self).generation_view(),
            final(self).queue_limit_view() == old(self).queue_limit_view(),
    {
        if self.generation != generation {
            return None;
        }
        Some(self.emit(event, now))
    }

    /// `progress` for the session of `generation`; nothing once it is stale.
    pub fn progress_for(
        &mut self,
        generation: u64,
        transfer_id: [u8; 16],
        bytes_done: u64,
        bytes_total: u64,
        now_ms: u64,
    ) -> (r: Option<BackendEvent>)
        requires
            old(self).wf(),
        ensures
            final(self).wf(),
            generation != old(self).generation_view() ==> r is None && *final(self) == *old(self),
            generation == old(self).generation_view() ==> final(self).progress_view()
                == progress_queued(old(self).progress_view(), transfer_id, bytes_done, bytes_total, now_ms)
                && (r is Some <==> progress_due(old(self).progress_view(), transfer_id, now_ms)),
            final(self).generation_view() == old(self).generation_view(),
            final(self).queue_limit_view() == old(self).queue_limit_view(),
    {
        if self.generation != generation {
            return None;
        }
        self.progress(transfer_id, bytes_done, bytes_total, now_ms)
    }
}

/// The remembered connection shown again, on the path the transfer used.
pub open spec fn restored(remembered: SessionState, path: TransportPath, s: SessionState) -> bool {
    match remembered {
        SessionState::ConnectedIdle { peer_info, peer_capabilities, peer_address, .. } => s == (
        SessionState::ConnectedIdle {
            peer_info,
            peer_capabilities,
            peer_address,
            transport_path: path,
        }),
        _ => same_state(s, remembered),
    }
}

// ---------------------------------------------------------------------------
// Laws of replay.
// ---------------------------------------------------------------------------

proof fn lemma_consecutive_from_end(r: Seq<BackendEvent>, last: u64, k: int)
    requires
        chained(r, last),
        last < u64::MAX,
        0 <= k < r.len(),
    ensures
        r[r.len() - 1 - k].sequence == last - k,
    decreases k,
{
    if k > 0 {
        lemma_consecutive_from_end(r, last, k - 1);
        let i = r.len() - 1 - k;
        assert(r[i + 1].sequence == sat_inc(r[i].sequence));
    }
}

proof fn lemma_newer_than_consecutive(r: Seq<BackendEvent>, base: int, s: u64)
    requires
        forall|i: int| 0 <= i < r.len() ==> #[trigger] r[i].sequence == base + i,
        s >= base - 1,
    ensures
        newer_than(r, s) == r.subrange(
            if s - base + 1 > r.len() {
                r.len() as int
            } else {
                s - base + 1
            },
            r.len() as int,
        ),
    decreases r.len(),
{
    if r.len() > 0 {
        let d = r.drop_last();
        assert forall|i: int| 0 <= i < d.len() implies #[trigger] d[i].sequence == base + i by {
            assert(d[i] == r[i]);
        }
        lemma_newer_than_consecutive(d, base, s);
        assert(r.last().sequence == base + r.len() - 1);
        if r.last().sequence > s {
            assert(newer_than(r, s) =~= r.subrange(s - base + 1, r.len() as int));
        } else {
            assert(newer_than(r, s) =~= r.subrange(r.len() as int, r.len() as int));
        }
    } else {
        assert(newer_than(r, s) =~= r.subrange(0, 0));
    }
}

/// A replay the service serves has no gap: while the sequence has not run
/// out, the events it lists are numbered `s + 1` up to the snapshot's
/// sequence, each once and in order.
pub proof fn replay_is_contiguous(core: &ServiceCore, s: u64)
    requires
        core.wf(),
        core.snapshot_view().sequence < u64::MAX,
        replay_allowed(core.recent_view(), core.snapshot_view().sequence, s),
    ensures
        newer_than(core.recent_view(), s).len() == core.snapshot_view().sequence - s,
        forall|i: int|
            0 <= i < newer_than(core.recent_view(), s).len() ==> #[trigger] newer_than(
                core.recent_view(),
                s,
            )[i].sequence == s + 1 + i,
{
    let r = core.recent_view();
    let last = core.snapshot_view().sequence;
    let n = r.len() as int;
    if n == 0 {
        assert(newer_than(r, s) =~= Seq::<BackendEvent>::empty());
    } else {
        let base = last - (n - 1);
        assert forall|i: int| 0 <= i < n implies #[trigger] r[i].sequence == base + i by {
            lemma_consecutive_from_end(r, last, n - 1 - i);
        }
        lemma_consecutive_from_end(r, last, n - 1);
        lemma_newer_than_consecutive(r, base, s);
    }
}

// ---------------------------------------------------------------------------
// Usage telemetry.
// ---------------------------------------------------------------------------

/// A usage event derived from a published event: fixed names and coarse
/// values only, never an address, text, file name, invitation or error text.
pub struct TelemetryObservation {
    pub name: &'static str,
    pub params: Vec<(&'static str, String)>,
}

pub open spec fn observation_view(o: TelemetryObservation) -> (Seq<char>, Seq<(Seq<char>, Seq<char>)>) {
    (o.name@, o.params@.map_values(|p: (&'static str, String)| (p.0@, p.1@)))
}

pub open spec fn transport_label(p: TransportPath) -> Seq<char> {
    match p {
        TransportPath::DirectUdp => "direct-udp"@,
        TransportPath::WebRtc => "webrtc"@,
        TransportPath::Derp => "derp"@,
        TransportPath::Unknown => "unknown"@,
    }
}

/// The usage event for `event`, given the snapshot's transport path and
/// whether a connection was already remembered.
pub open spec fn observation(path: TransportPath, was_connected: bool, event: AppEvent) -> Option<
    (Seq<char>, Seq<(Seq<char>, Seq<char>)>),
> {
    let transport = ("transport"@, transport_label(path));
    match event {
        AppEvent::StateChanged(SessionState::AwaitingPeer { .. }) => Some(
            ("session_created"@, seq![transport]),
        ),
        AppEvent::StateChanged(SessionState::ConnectedIdle { .. }) => if !was_connected {
            Some(("peer_connected"@, seq![transport]))
        } else {
            None
        },
        AppEvent::StateChanged(SessionState::Transferring { is_incoming, is_files, .. }) => Some(
            (
                "transfer_started"@,
                seq![
                    transport,
                    ("direction"@, if is_incoming {
                        "receive"@
                    } else {
                        "send"@
                    }),
                    ("file_count"@, if is_files {
                        "1"@
                    } else {
                        "0"@
                    }),
                ],
            ),
        ),
        AppEvent::StateChanged(SessionState::Error { .. }) | AppEvent::ErrorOccurred { .. } => Some(
            ("error"@, seq![("category"@, "transport"@)]),
        ),
        AppEvent::TextReceived { text } => Some(
            (
                "text_message_received"@,
                seq![("length_bucket"@, crate::telemetry::bucket(text@.len()))],
            ),
        ),
        AppEvent::TransferCompleted { .. } => Some(("transfer_completed"@, seq![transport])),
        AppEvent::TransferCancelled { reason, .. } => Some(
            (
                "transfer_cancelled"@,
                seq![("reason"@, reason_category(reason@))],
            ),
        ),
        _ => None,
    }
}

fn transport_name(p: TransportPath) -> (r: &'static str)
    ensures
        r@ == transport_label(p),
{
    match p {
        TransportPath::DirectUdp => "direct-udp",
        TransportPath::WebRtc => "webrtc",
        TransportPath::Derp => "derp",
        TransportPath::Unknown => "unknown",
    }
}

fn one_param(key: &'static str, value: &str) -> (r: Vec<(&'static str, String)>)
    ensures
        r@.map_values(|p: (&'static str, String)| (p.0@, p.1@)) == seq![(key@, value@)],
{
    let mut v: Vec<(&'static str, String)> = Vec::new();
    v.push((key, value.to_owned()));
    assert(v@.map_values(|p: (&'static str, String)| (p.0@, p.1@)) =~= seq![(key@, value@)]);
    v
}

impl ServiceCore {
    /// The usage event that publishing `event` now should record, if any.
    pub fn observe_telemetry(&self, event: &AppEvent) -> (r: Option<TelemetryObservation>)
        ensures
            r is None <==> observation(
                self.snapshot_view().app.transport_path,
                self.connected_view() is Some,
                *event,
            ) is None,
            r matches Some(o) ==> Some(observation_view(o)) == observation(
                self.snapshot_view().app.transport_path,
                self.connected_view() is Some,
                *event,
            ),
    {
        let transport = transport_name(self.snapshot.app.transport_path);
        match event {
            AppEvent::StateChanged(SessionState::AwaitingPeer { .. }) => Some(
                TelemetryObservation { name: "session_created", params: one_param("transport", transport) },
            ),
            AppEvent::StateChanged(SessionState::ConnectedIdle { .. }) => {
                if self.connected_state.is_none() {
                    Some(
                        TelemetryObservation {
                            name: "peer_connected",
                            params: one_param("transport", transport),
                        },
                    )
                } else {
                    None
                }
            },
            AppEvent::StateChanged(SessionState::Transferring { is_incoming, is_files, .. }) => {
                let direction = if *is_incoming {
                    "receive"
                } else {
                    "send"
                };
                let count = if *is_files {
                    "1"
                } else {
                    "0"
                };
                let mut params: Vec<(&'static str, String)> = Vec::new();
                params.push(("transport", transport.to_owned()));
                params.push(("direction", direction.to_owned()));
                params.push(("file_count", count.to_owned()));
                proof {
                    let ghost expected: Seq<(Seq<char>, Seq<char>)> = seq![
                        ("transport"@, transport@),
                        ("direction"@, direction@),
                        ("file_count"@, count@),
                    ];
                    assert(params@.map_values(|p: (&'static str, String)| (p.0@, p.1@)) =~= expected);
                }
                Some(TelemetryObservation { name: "transfer_started", params })
            },
            AppEvent::StateChanged(SessionState::Error { .. }) | AppEvent::ErrorOccurred { .. } => Some(
                TelemetryObservation { name: "error", params: one_param("category", "transport") },
            ),
            AppEvent::TextReceived { text } => {
                let count = crate::text::chars_of(text.as_str()).len();
                let bucket = crate::telemetry::length_bucket(count);
                Some(
                    TelemetryObservation {
                        name: "text_message_received",
                        params: one_param("length_bucket", bucket),
                    },
                )
            },
            AppEvent::TransferCompleted { .. } => Some(
                TelemetryObservation { name: "transfer_completed", params: one_param("transport", transport) },
            ),
            AppEvent::TransferCancelled { reason, .. } => {
                let why = transfer_telemetry_reason(reason.as_str());
                Some(TelemetryObservation { name: "transfer_cancelled", params: one_param("reason", why) })
            },
            _ => None,
        }
    }
}

} // verus!
