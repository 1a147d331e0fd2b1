//! Routing of the native bridge's process-wide event queue to listeners.
//!
//! One reader drains the bridge's queue; each listener has a mailbox keyed
//! by its handle.  Events for a listener that is still being created wait
//! in a shared queue until it registers.  All held events together never
//! exceed the bridge's own queue limit; an event that cannot be held is
//! handed back to be discarded (an incoming stream is then closed).
//!
//! The adapter keeps this state behind one lock, wakes waiting receivers
//! and closes discarded streams outside that lock.

use vstd::prelude::*;
use crate::native_bridge::{
    TcEvent, TcHandle, TC_EVENT_INCOMING_STREAM, TC_EVENT_LISTENER_ERROR, TC_EVENT_STREAM_ERROR,
};
use crate::transport::TransportError;

verus! {

/// The bridge's process-wide event channel holds this many events.
pub const MAX_QUEUED_EVENTS: usize = 1024;

/// The events waiting for one listener.  `token` tells this registration
/// apart from an earlier one with the same handle.
pub struct Mailbox {
    pub owner: TcHandle,
    pub token: u64,
    pub events: Vec<TcEvent>,
    pub failure: Option<i32>,
}

pub struct RouterState {
    listeners: Vec<Mailbox>,
    creating: usize,
    registering: Vec<TcEvent>,
    queued: usize,
    revision: u64,
    next_token: u64,
}

/// What a receiver finds.
pub enum Received {
    /// The listener was closed, or this receiver's registration was
    /// replaced.
    Closed,
    /// The bridge failed while the listener was open.
    Failed(i32),
    Event(TcEvent),
    /// Nothing yet: wait for a wake-up and look again.
    Empty,
}

/// Whether the router keeps events of this kind.
pub open spec fn is_routed(e: TcEvent) -> bool {
    e.event_type == TC_EVENT_INCOMING_STREAM || e.event_type == TC_EVENT_LISTENER_ERROR
        || e.event_type == TC_EVENT_STREAM_ERROR
}

/// Events held in mailboxes.
pub open spec fn mailbox_events(ls: Seq<Mailbox>) -> nat
    decreases ls.len(),
{
    if ls.len() == 0 {
        0
    } else {
        mailbox_events(ls.drop_last()) + ls.last().events@.len()
    }
}

/// Index of the mailbox of `owner`, or -1.
pub open spec fn mailbox_index(ls: Seq<Mailbox>, owner: TcHandle) -> int {
    if exists|i: int| 0 <= i < ls.len() && #[trigger] ls[i].owner == owner {
        choose|i: int| 0 <= i < ls.len() && #[trigger] ls[i].owner == owner
    } else {
        -1
    }
}

pub open spec fn unique_owners(ls: Seq<Mailbox>) -> bool {
    forall|i: int, j: int|
        0 <= i < ls.len() && 0 <= j < ls.len() && i != j ==> #[trigger] ls[i].owner
            != #[trigger] ls[j].owner
}

/// The events of `owner` among `q`, in order.
pub open spec fn events_of(q: Seq<TcEvent>, owner: TcHandle) -> Seq<TcEvent> {
    q.filter(|e: TcEvent| e.owner_handle == owner)
}

/// The events of other owners among `q`, in order.
pub open spec fn events_not_of(q: Seq<TcEvent>, owner: TcHandle) -> Seq<TcEvent> {
    q.filter(|e: TcEvent| e.owner_handle != owner)
}

impl RouterState {
    pub closed spec fn listeners_view(&self) -> Seq<Mailbox> {
        self.listeners@
    }

    pub closed spec fn registering_view(&self) -> Seq<TcEvent> {
        self.registering@
    }

    pub closed spec fn creating_view(&self) -> nat {
        self.creating as nat
    }

    pub closed spec fn queued_view(&self) -> nat {
        self.queued as nat
    }

    pub closed spec fn revision_view(&self) -> u64 {
        self.revision
    }

    pub closed spec fn next_token_view(&self) -> u64 {
        self.next_token
    }

    /// The router's invariant: one mailbox per handle, registration tokens
    /// below the next one, and the count of held events exact and within
    /// the bridge's limit.
    pub open spec fn wf(&self) -> bool {
        &&& unique_owners(self.listeners_view())
        &&& forall|i: int|
            0 <= i < self.listeners_view().len() ==> #[trigger] self.listeners_view()[i].token
                < self.next_token_view()
        &&& self.queued_view() == mailbox_events(self.listeners_view())
            + self.registering_view().len()
        &&& self.queued_view() <= MAX_QUEUED_EVENTS
    }
}

proof fn lemma_mailbox_events_update(ls: Seq<Mailbox>, i: int, m: Mailbox)
    requires
        0 <= i < ls.len(),
    ensures
        mailbox_events(ls.update(i, m)) + ls[i].events@.len() == mailbox_events(ls)
            + m.events@.len(),
    decreases ls.len(),
{
    let u = ls.update(i, m);
    if i == ls.len() - 1 {
        assert(u.drop_last() =~= ls.drop_last());
    } else {
        assert(u.drop_last() =~= ls.drop_last().update(i, m));
        lemma_mailbox_events_update(ls.drop_last(), i, m);
    }
}

proof fn lemma_mailbox_events_remove(ls: Seq<Mailbox>, i: int)
    requires
        0 <= i < ls.len(),
    ensures
        mailbox_events(ls.remove(i)) + ls[i].events@.len() == mailbox_events(ls),
    decreases ls.len(),
{
    let r = ls.remove(i);
    if i == ls.len() - 1 {
        assert(r =~= ls.drop_last());
    } else {
        assert(r.drop_last() =~= ls.drop_last().remove(i));
        assert(r.last() == ls.last());
        lemma_mailbox_events_remove(ls.drop_last(), i);
    }
}

proof fn lemma_unique_after_remove(ls: Seq<Mailbox>, i: int)
    requires
        unique_owners(ls),
        0 <= i < ls.len(),
    ensures
        unique_owners(ls.remove(i)),
{
    let q = ls.remove(i);
    assert forall|a: int, b: int| 0 <= a < q.len() && 0 <= b < q.len() && a != b implies #[trigger] q[a].owner
        != #[trigger] q[b].owner by {
        let pa = if a < i {
            a
        } else {
            a + 1
        };
        let pb = if b < i {
            b
        } else {
            b + 1
        };
        assert(q[a] == ls[pa]);
        assert(q[b] == ls[pb]);
    }
}

fn find_mailbox(ls: &Vec<Mailbox>, owner: TcHandle) -> (r: Option<usize>)
    requires
        unique_owners(ls@),
    ensures
        r is None ==> mailbox_index(ls@, owner) == -1,
        r matches Some(i) ==> i < ls@.len() && mailbox_index(ls@, owner) == i && ls@[i as int].owner
            == owner,
{
    let mut i: usize = 0;
    while i < ls.len()
        invariant
            i <= ls@.len(),
            unique_owners(ls@),
            forall|k: int| 0 <= k < i ==> ls@[k].owner != owner,
        decreases ls.len() - i,
    {
        if ls[i].owner == owner {
            assert(mailbox_index(ls@, owner) == i as int) by {
                let c = choose|c: int| 0 <= c < ls@.len() && #[trigger] ls@[c].owner == owner;
                if c != i as int {
                    assert(ls@[c].owner != ls@[i as int].owner);
                }
            }
            return Some(i);
        }
        i += 1;
    }
    None
}

/// Handles of incoming streams among discarded events: these must be
/// closed.
pub open spec fn streams_to_close(events: Seq<TcEvent>) -> Seq<TcHandle>
    decreases events.len(),
{
    if events.len() == 0 {
        Seq::empty()
    } else if events.last().event_type == TC_EVENT_INCOMING_STREAM && events.last().object_handle
        != 0 {
        streams_to_close(events.drop_last()).push(events.last().object_handle)
    } else {
        streams_to_close(events.drop_last())
    }
}

/// The streams to close for discarded events.
pub fn discarded_streams(events: &[TcEvent]) -> (r: Vec<TcHandle>)
    ensures
        r@ == streams_to_close(events@),
{
    let mut r: Vec<TcHandle> = Vec::new();
    let mut i: usize = 0;
    while i < events.len()
        invariant
            i <= events@.len(),
            r@ == streams_to_close(events@.take(i as int)),
        decreases events.len() - i,
    {
        assert(events@.take(i + 1).drop_last() =~= events@.take(i as int));
        let e = events[i];
        if e.event_type == TC_EVENT_INCOMING_STREAM && e.object_handle != 0 {
            r.push(e.object_handle);
        }
        i += 1;
    }
    assert(events@.take(events@.len() as int) =~= events@);
    r
}

impl RouterState {
    pub fn new() -> (s: Self)
        ensures
            s.wf(),
            s.listeners_view().len() == 0,
            s.registering_view().len() == 0,
            s.creating_view() == 0,
            s.queued_view() == 0,
            s.revision_view() == 0,
            s.next_token_view() == 0,
    {
        RouterState {
            listeners: Vec::new(),
            creating: 0,
            registering: Vec::new(),
            queued: 0,
            revision: 0,
            next_token: 0,
        }
    }

    /// A listener is being created: its events are held until it
    /// registers.
    pub fn begin_create(&mut self)
        requires
            old(self).wf(),
            old(self).creating_view() < usize::MAX,
        ensures
            final(self).wf(),
            final(self).creating_view() == old(self).creating_view() + 1,
            final(self).listeners_view() == old(self).listeners_view(),
            final(self).registering_view() == old(self).registering_view(),
            final(self).revision_view() != old(self).revision_view(),
    {
        self.creating = self.creating + 1;
        self.revision = self.revision.wrapping_add(1);
    }

    /// A creation ended (registered or not).  Once none is under way, held
    /// events of unregistered listeners are handed back to be discarded.
    pub fn end_create(&mut self) -> (discarded: Vec<TcEvent>)
        requires
            old(self).wf(),
            old(self).creating_view() > 0,
        ensures
            final(self).wf(),
            final(self).creating_view() == old(self).creating_view() - 1,
            final(self).listeners_view() == old(self).listeners_view(),
            final(self).creating_view() == 0 ==> discarded@ == old(self).registering_view()
                && final(self).registering_view().len() == 0,
            final(self).creating_view() > 0 ==> discarded@.len() == 0 && final(self).registering_view()
                == old(self).registering_view(),
    {
        self.creating = self.creating - 1;
        let discarded = if self.creating == 0 {
            let mut d: Vec<TcEvent> = Vec::new();
            std::mem::swap(&mut d, &mut self.registering);
            d
        } else {
            Vec::new()
        };
        self.queued = self.queued - discarded.len();
        self.revision = self.revision.wrapping_add(1);
        discarded
    }

    /// Registers the listener `owner`, handing it the events that arrived
    /// for it while it was created.  Returns the registration's token.
    pub fn register(&mut self, owner: TcHandle) -> (r: Result<u64, TransportError>)
        requires
            old(self).wf(),
            old(self).next_token_view() < u64::MAX,
        ensures
            final(self).wf(),
            mailbox_index(old(self).listeners_view(), owner) >= 0 ==> (r matches Err(
                TransportError::Internal(_),
            ) && *final(self) == *old(self)),
            mailbox_index(old(self).listeners_view(), owner) < 0 ==> (r matches Ok(token) && {
                let m = final(self).listeners_view().last();
                &&& final(self).listeners_view().drop_last() == old(self).listeners_view()
                &&& m.owner == owner
                &&& m.token == token
                &&& m.failure is None
                &&& m.events@ == events_of(old(self).registering_view(), owner)
                &&& final(self).registering_view() == events_not_of(old(self).registering_view(), owner)
            }),
            final(self).creating_view() == old(self).creating_view(),
    {
        if find_mailbox(&self.listeners, owner).is_some() {
            return Err(TransportError::Internal("listener handle is already registered".to_owned()));
        }
        let mut mine: Vec<TcEvent> = Vec::new();
        let mut kept: Vec<TcEvent> = Vec::new();
        let ghost q = self.registering@;
        let mut i: usize = 0;
        while i < self.registering.len()
            invariant
                i <= q.len(),
                self.registering@ == q,
                mine@ == events_of(q.take(i as int), owner),
                kept@ == events_not_of(q.take(i as int), owner),
                mine@.len() + kept@.len() == i,
            decreases self.registering.len() - i,
        {
            proof {
                reveal(Seq::filter);
                assert(q.take(i + 1).drop_last() =~= q.take(i as int));
            }
            let e = self.registering[i];
            if e.owner_handle == owner {
                mine.push(e);
            } else {
                kept.push(e);
            }
            i += 1;
        }
        assert(q.take(q.len() as int) =~= q);
        let token = self.next_token;
        self.next_token = self.next_token + 1;
        self.registering = kept;
        let ghost before = self.listeners@;
        self.listeners.push(Mailbox { owner, token, events: mine, failure: None });
        proof {
            assert(self.listeners@.drop_last() =~= before);
            assert forall|a: int, b: int|
                0 <= a < self.listeners@.len() && 0 <= b < self.listeners@.len() && a != b implies #[trigger] self.listeners@[a].owner
                != #[trigger] self.listeners@[b].owner by {
                if a < before.len() && b < before.len() {
                } else if a < before.len() {
                    assert(before[a].owner != owner);
                } else {
                    assert(before[b].owner != owner);
                }
            }
        }
        self.revision = self.revision.wrapping_add(1);
        Ok(token)
    }

    /// Routes one event: into its listener's mailbox, or into the shared
    /// queue while a listener is being created.  Returns the event when it
    /// cannot be held (unknown or failed listener, or the limit reached), to
    /// be discarded; events of other kinds are ignored.
    pub fn route(&mut self, event: TcEvent) -> (discarded: Option<TcEvent>)
        requires
            old(self).wf(),
        ensures
            final(self).wf(),
            !is_routed(event) ==> discarded is None && *final(self) == *old(self),
            is_routed(event) ==> {
                let i = mailbox_index(old(self).listeners_view(), event.owner_handle);
                let ls = old(self).listeners_view();
                if old(self).queued_view() < MAX_QUEUED_EVENTS && i >= 0 && ls[i].failure is None {
                    &&& discarded is None
                    &&& final(self).listeners_view() == ls.update(
                        i,
                        Mailbox { events: final(self).listeners_view()[i].events, ..ls[i] },
                    )
                    &&& final(self).listeners_view()[i].events@ == ls[i].events@.push(event)
                    &&& final(self).registering_view() == old(self).registering_view()
                } else if old(self).queued_view() < MAX_QUEUED_EVENTS && i < 0
                    && old(self).creating_view() > 0 {
                    &&& discarded is None
                    &&& final(self).listeners_view() == ls
                    &&& final(self).registering_view() == old(self).registering_view().push(event)
                } else {
                    &&& discarded == Some(event)
                    &&& *final(self) == *old(self)
                }
            },
            final(self).creating_view() == old(self).creating_view(),
    {
        if !(event.event_type == TC_EVENT_INCOMING_STREAM || event.event_type == TC_EVENT_LISTENER_ERROR
            || event.event_type == TC_EVENT_STREAM_ERROR) {
            return None;
        }
        if self.queued < MAX_QUEUED_EVENTS {
            match find_mailbox(&self.listeners, event.owner_handle) {
                Some(i) => {
                    if self.listeners[i].failure.is_none() {
                        let ghost before = self.listeners@;
                        let mut mailbox = self.listeners.remove(i);
                        mailbox.events.push(event);
                        let ghost m = mailbox;
                        self.listeners.insert(i, mailbox);
                        proof {
                            assert(self.listeners@ =~= before.update(i as int, m));
                            lemma_mailbox_events_update(before, i as int, m);
                            assert forall|a: int, b: int|
                                0 <= a < self.listeners@.len() && 0 <= b < self.listeners@.len() && a != b implies #[trigger] self.listeners@[a].owner
                                != #[trigger] self.listeners@[b].owner by {
                                let pa = before[a];
                                let pb = before[b];
                            }
                        }
                        self.queued = self.queued + 1;
                        return None;
                    }
                },
                None => {
                    if self.creating > 0 {
                        self.registering.push(event);
                        self.queued = self.queued + 1;
                        return None;
                    }
                },
            }
        }
        Some(event)
    }

    /// Closes the registration `token` of listener `owner` and hands back its
    /// held events to be discarded.  A stale registration changes nothing,
    /// so it cannot close a newer listener with the same handle.
    pub fn close(&mut self, owner: TcHandle, token: u64) -> (discarded: Vec<TcEvent>)
        requires
            old(self).wf(),
        ensures
            final(self).wf(),
            ({
                let i = mailbox_index(old(self).listeners_view(), owner);
                if i >= 0 && old(self).listeners_view()[i].token == token {
                    &&& discarded@ == old(self).listeners_view()[i].events@
                    &&& final(self).listeners_view() == old(self).listeners_view().remove(i)
                    &&& final(self).registering_view() == old(self).registering_view()
                } else {
                    &&& discarded@.len() == 0
                    &&& *final(self) == *old(self)
                }
            }),
            final(self).creating_view() == old(self).creating_view(),
    {
        match find_mailbox(&self.listeners, owner) {
            Some(i) => {
                if self.listeners[i].token != token {
                    return Vec::new();
                }
                proof {
                    lemma_mailbox_events_remove(self.listeners@, i as int);
                    lemma_unique_after_remove(self.listeners@, i as int);
                }
                let ghost before = self.listeners@;
                let mailbox = self.listeners.remove(i);
                proof {
                    assert forall|k: int| 0 <= k < self.listeners@.len() implies #[trigger] self.listeners@[k].token
                        < self.next_token by {
                        if k < i {
                            assert(self.listeners@[k] == before[k]);
                        } else {
                            assert(self.listeners@[k] == before[k + 1]);
                        }
                    }
                }
                self.queued = self.queued - mailbox.events.len();
                self.revision = self.revision.wrapping_add(1);
                mailbox.events
            },
            None => Vec::new(),
        }
    }

    /// Takes the next event for registration `token` of `owner`.
    pub fn receive(&mut self, owner: TcHandle, token: u64) -> (r: Received)
        requires
            old(self).wf(),
        ensures
            final(self).wf(),
            ({
                let i = mailbox_index(old(self).listeners_view(), owner);
                let ls = old(self).listeners_view();
                if i < 0 || ls[i].token != token {
                    r is Closed && *final(self) == *old(self)
                } else if ls[i].failure is Some {
                    r == Received::Failed(ls[i].failure->0) && *final(self) == *old(self)
                } else if ls[i].events@.len() == 0 {
                    r is Empty && *final(self) == *old(self)
                } else {
                    &&& r == Received::Event(ls[i].events@[0])
                    &&& final(self).listeners_view()[i].events@ == ls[i].events@.drop_first()
                    &&& final(self).listeners_view() == ls.update(
                        i,
                        Mailbox { events: final(self).listeners_view()[i].events, ..ls[i] },
                    )
                    &&& final(self).registering_view() == old(self).registering_view()
                }
            }),
            final(self).creating_view() == old(self).creating_view(),
    {
        let i = match find_mailbox(&self.listeners, owner) {
            Some(i) => i,
            None => {
                return Received::Closed;
            },
        };
        if self.listeners[i].token != token {
            return Received::Closed;
        }
        if let Some(code) = self.listeners[i].failure {
            return Received::Failed(code);
        }
        if self.listeners[i].events.len() == 0 {
            return Received::Empty;
        }
        let ghost before = self.listeners@;
        let mut mailbox = self.listeners.remove(i);
        let event = mailbox.events.remove(0);
        let ghost m = mailbox;
        self.listeners.insert(i, mailbox);
        proof {
            assert(self.listeners@ =~= before.update(i as int, m));
            lemma_mailbox_events_update(before, i as int, m);
            assert forall|a: int, b: int|
                0 <= a < self.listeners@.len() && 0 <= b < self.listeners@.len() && a != b implies #[trigger] self.listeners@[a].owner
                != #[trigger] self.listeners@[b].owner by {
                let pa = before[a];
                let pb = before[b];
            }
        }
        self.queued = self.queued - 1;
        Received::Event(event)
    }
}

/// The registrations of listeners that have not failed, in order.
pub open spec fn live_registrations(ls: Seq<Mailbox>) -> Seq<(TcHandle, u64)>
    decreases ls.len(),
{
    if ls.len() == 0 {
        Seq::empty()
    } else if ls.last().failure is None {
        live_registrations(ls.drop_last()).push((ls.last().owner, ls.last().token))
    } else {
        live_registrations(ls.drop_last())
    }
}

/// The events held by the registrations that `polled` names, listener by
/// listener in order.
pub open spec fn failed_events(ls: Seq<Mailbox>, polled: Seq<(TcHandle, u64)>) -> Seq<TcEvent>
    decreases ls.len(),
{
    if ls.len() == 0 {
        Seq::empty()
    } else if names(polled, ls.last().owner, ls.last().token) {
        failed_events(ls.drop_last(), polled) + ls.last().events@
    } else {
        failed_events(ls.drop_last(), polled)
    }
}

/// Whether `polled` names registration `token` of `owner`.
pub open spec fn names(polled: Seq<(TcHandle, u64)>, owner: TcHandle, token: u64) -> bool {
    exists|k: int| 0 <= k < polled.len() && #[trigger] polled[k] == (owner, token)
}

fn names_exec(polled: &[(TcHandle, u64)], owner: TcHandle, token: u64) -> (b: bool)
    ensures
        b == names(polled@, owner, token),
{
    let mut k: usize = 0;
    while k < polled.len()
        invariant
            k <= polled@.len(),
            forall|j: int| 0 <= j < k ==> polled@[j] != (owner, token),
        decreases polled.len() - k,
    {
        if polled[k].0 == owner && polled[k].1 == token {
            assert(polled@[k as int] == (owner, token));
            return true;
        }
        k += 1;
    }
    false
}

impl RouterState {
    /// The registrations that still wait for events: what one poll of the
    /// bridge serves.
    pub fn live_listeners(&self) -> (r: Vec<(TcHandle, u64)>)
        ensures
            r@ == live_registrations(self.listeners_view()),
    {
        let mut r: Vec<(TcHandle, u64)> = Vec::new();
        let mut i: usize = 0;
        while i < self.listeners.len()
            invariant
                i <= self.listeners@.len(),
                r@ == live_registrations(self.listeners@.take(i as int)),
            decreases self.listeners.len() - i,
        {
            assert(self.listeners@.take(i + 1).drop_last() =~= self.listeners@.take(i as int));
            if self.listeners[i].failure.is_none() {
                r.push((self.listeners[i].owner, self.listeners[i].token));
            }
            i += 1;
        }
        assert(self.listeners@.take(self.listeners@.len() as int) =~= self.listeners@);
        r
    }

    /// Whether the single reader has anything to poll for: a listener being
    /// created, or one that has not failed.
    pub fn needs_reader(&self) -> (b: bool)
        ensures
            b == (self.creating_view() > 0 || exists|i: int|
                0 <= i < self.listeners_view().len() && (#[trigger] self.listeners_view()[i]).failure
                    is None),
    {
        if self.creating > 0 {
            return true;
        }
        let mut i: usize = 0;
        while i < self.listeners.len()
            invariant
                i <= self.listeners@.len(),
                forall|j: int| 0 <= j < i ==> (#[trigger] self.listeners@[j]).failure is Some,
            decreases self.listeners.len() - i,
        {
            if self.listeners[i].failure.is_none() {
                return true;
            }
            i += 1;
        }
        false
    }

    pub fn revision(&self) -> (r: u64)
        ensures
            r == self.revision_view(),
    {
        self.revision
    }

    /// Events held for listeners and for registrations under way.
    pub fn queued(&self) -> (n: usize)
        ensures
            n == self.queued_view(),
    {
        self.queued
    }

    /// A poll of the bridge failed with `code`: the registrations it served
    /// fail and hand back their events; listeners created during the poll
    /// are not touched.
    pub fn fail_listeners(&mut self, polled: &[(TcHandle, u64)], code: i32) -> (discarded: Vec<TcEvent>)
        requires
            old(self).wf(),
        ensures
            final(self).wf(),
            final(self).listeners_view().len() == old(self).listeners_view().len(),
            forall|i: int|
                0 <= i < old(self).listeners_view().len() ==> {
                    let m = old(self).listeners_view()[i];
                    let n = #[trigger] final(self).listeners_view()[i];
                    if names(polled@, m.owner, m.token) {
                        n.owner == m.owner && n.token == m.token && n.failure == Some(code)
                            && n.events@.len() == 0
                    } else {
                        n == m
                    }
                },
            final(self).registering_view() == old(self).registering_view(),
            final(self).creating_view() == old(self).creating_view(),
            discarded@ == failed_events(old(self).listeners_view(), polled@),
    {
        let mut discarded: Vec<TcEvent> = Vec::new();
        let ghost start = self.listeners@;
        proof {
            assert(start.take(0) =~= Seq::<Mailbox>::empty());
        }
        let mut i: usize = 0;
        while i < self.listeners.len()
            invariant
                i <= self.listeners@.len() == start.len(),
                unique_owners(self.listeners@),
                forall|k: int| 0 <= k < self.listeners@.len() ==> #[trigger] self.listeners@[k].token < self.next_token,
                self.queued == mailbox_events(self.listeners@) + self.registering@.len(),
                self.queued <= MAX_QUEUED_EVENTS,
                self.registering@ == old(self).registering@,
                self.creating == old(self).creating,
                self.next_token == old(self).next_token,
                start == old(self).listeners@,
                discarded@ == failed_events(start.take(i as int), polled@),
                forall|k: int| 0 <= k < self.listeners@.len() ==> (#[trigger] self.listeners@[k]).owner == start[k].owner,
                forall|k: int|
                    i <= k < start.len() ==> #[trigger] self.listeners@[k] == start[k],
                forall|k: int|
                    0 <= k < i ==> {
                        let m = start[k];
                        let n = #[trigger] self.listeners@[k];
                        if names(polled@, m.owner, m.token) {
                            n.owner == m.owner && n.token == m.token && n.failure == Some(code)
                                && n.events@.len() == 0
                        } else {
                            n == m
                        }
                    },
            decreases start.len() - i,
        {
            let owner = self.listeners[i].owner;
            let token = self.listeners[i].token;
            proof {
                assert(start.take(i + 1).drop_last() =~= start.take(i as int));
                assert(start.take(i + 1).last() == start[i as int]);
            }
            if names_exec(polled, owner, token) {
                let ghost before = self.listeners@;
                let mut mailbox = self.listeners.remove(i);
                let mut taken: Vec<TcEvent> = Vec::new();
                std::mem::swap(&mut taken, &mut mailbox.events);
                mailbox.failure = Some(code);
                let ghost m = mailbox;
                self.listeners.insert(i, mailbox);
                proof {
                    assert(self.listeners@ =~= before.update(i as int, m));
                    lemma_mailbox_events_update(before, i as int, m);
                    assert forall|a: int, b: int|
                        0 <= a < self.listeners@.len() && 0 <= b < self.listeners@.len() && a != b implies #[trigger] self.listeners@[a].owner
                        != #[trigger] self.listeners@[b].owner by {
                        let pa = before[a];
                        let pb = before[b];
                    }
                }
                self.queued = self.queued - taken.len();
                let ghost before_push = discarded@;
                let mut k: usize = 0;
                while k < taken.len()
                    invariant
                        k <= taken@.len(),
                        discarded@ == before_push + taken@.take(k as int),
                    decreases taken.len() - k,
                {
                    discarded.push(taken[k]);
                    k += 1;
                    assert(discarded@ =~= before_push + taken@.take(k as int));
                }
                assert(taken@.take(taken@.len() as int) =~= taken@);
                assert(taken@ == start[i as int].events@);
            }
            i += 1;
        }
        assert(start.take(start.len() as int) =~= start);
        discarded
    }

    /// Closes every listener and hands back all held events.
    pub fn close_all(&mut self) -> (discarded: Vec<TcEvent>)
        requires
            old(self).wf(),
        ensures
            final(self).wf(),
            final(self).listeners_view().len() == 0,
            final(self).registering_view().len() == 0,
            final(self).queued_view() == 0,
            discarded@.len() == old(self).queued_view(),
            final(self).creating_view() == old(self).creating_view(),
    {
        let mut discarded: Vec<TcEvent> = Vec::new();
        std::mem::swap(&mut discarded, &mut self.registering);
        let mut listeners: Vec<Mailbox> = Vec::new();
        std::mem::swap(&mut listeners, &mut self.listeners);
        let ghost all = listeners@;
        let mut i: usize = 0;
        while i < listeners.len()
            invariant
                i <= listeners@.len(),
                listeners@ == all,
                discarded@.len() == old(self).registering_view().len() + mailbox_events(all.take(i as int)),
            decreases listeners.len() - i,
        {
            assert(all.take(i + 1).drop_last() =~= all.take(i as int));
            let mut k: usize = 0;
            let ghost base = discarded@.len();
            while k < listeners[i].events.len()
                invariant
                    i < listeners@.len(),
                    listeners@ == all,
                    k <= listeners@[i as int].events@.len(),
                    discarded@.len() == base + k,
                decreases listeners[i as int].events@.len() - k,
            {
                discarded.push(listeners[i].events[k]);
                k += 1;
            }
            i += 1;
        }
        assert(all.take(all.len() as int) =~= all);
        self.queued = 0;
        self.revision = self.revision.wrapping_add(1);
        discarded
    }
}

} // verus!
