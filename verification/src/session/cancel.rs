//! The cancellation tokens of running transfers.
//!
//! Each running transfer has a token its worker polls and, once its stream
//! exists, a hook that wakes the stream.  Cancelling marks the token once
//! and hands out the hook to run; a transfer of a session that is no longer
//! shown is cancelled from the start; beginning a new session cancels every
//! transfer of the old one.  The registry decides; the caller sets the
//! tokens and runs the hooks outside its lock.

use vstd::prelude::*;
use crate::session::service::ids_equal;

verus! {

/// One running transfer: the token its worker polls, whether it was
/// cancelled, and the hook that wakes its stream.
pub struct CancelEntry<T, C> {
    pub id: [u8; 16],
    pub token: T,
    pub cancelled: bool,
    pub callback: Option<C>,
}

/// No transfer is registered twice.
pub open spec fn unique_ids<T, C>(s: Seq<CancelEntry<T, C>>) -> bool {
    forall|a: int, b: int|
        0 <= a < s.len() && 0 <= b < s.len() && a != b ==> #[trigger] s[a].id != #[trigger] s[b].id
}

/// The entry of transfer `id`, if it is registered.
pub open spec fn entry_of<T, C>(s: Seq<CancelEntry<T, C>>, id: [u8; 16]) -> Option<CancelEntry<T, C>> {
    if exists|i: int| 0 <= i < s.len() && #[trigger] s[i].id == id {
        Some(s[choose|i: int| 0 <= i < s.len() && #[trigger] s[i].id == id])
    } else {
        None
    }
}

/// Whether `a` and `b` hold the same entries for every transfer but `id`.
pub open spec fn same_except<T, C>(a: Seq<CancelEntry<T, C>>, b: Seq<CancelEntry<T, C>>, id: [u8; 16]) -> bool {
    forall|other: [u8; 16]| other != id ==> #[trigger] entry_of(b, other) == entry_of(a, other)
}

/// What registering a transfer did.
#[derive(Debug, Clone, Copy, PartialEq, Eq, Structural)]
pub enum Registration {
    /// The session is no longer shown: the transfer gets a token that is
    /// already cancelled, and nothing is registered.
    Stale,
    /// The transfer was registered with the given token.
    Inserted,
    /// The transfer was registered before; it keeps its token.
    Existing,
}

/// What attaching a stream's hook did.
#[derive(Debug, Clone, Copy, PartialEq, Eq, Structural)]
pub enum HookOutcome {
    /// The transfer is not registered: the caller runs the hook itself.
    NotRegistered,
    /// The hook was stored for a later cancellation.
    Stored,
    /// The hook was stored, and the transfer was cancelled already: run it
    /// now.
    RunNow,
}

/// What a cancellation request did.
#[derive(Debug, Clone, Copy, PartialEq, Eq, Structural)]
pub enum CancelOutcome {
    /// No such transfer runs.
    NotFound,
    /// The transfer was cancelled before; nothing runs again.
    AlreadyCancelled,
    /// The transfer is cancelled now: set its token and run its hook.
    Cancelled,
}

proof fn lemma_entry_at<T, C>(s: Seq<CancelEntry<T, C>>, i: int)
    requires
        unique_ids(s),
        0 <= i < s.len(),
    ensures
        entry_of(s, s[i].id) == Some(s[i]),
{
    assert(s[i].id == s[i].id);
    let c = choose|c: int| 0 <= c < s.len() && #[trigger] s[c].id == s[i].id;
    if c != i {
        assert(s[c].id != s[i].id);
    }
}

proof fn lemma_entry_absent<T, C>(s: Seq<CancelEntry<T, C>>, id: [u8; 16])
    requires
        forall|i: int| 0 <= i < s.len() ==> s[i].id != id,
    ensures
        entry_of(s, id) is None,
{
}

proof fn lemma_update<T, C>(s: Seq<CancelEntry<T, C>>, i: int, e: CancelEntry<T, C>)
    requires
        unique_ids(s),
        0 <= i < s.len(),
        e.id == s[i].id,
    ensures
        unique_ids(s.update(i, e)),
        entry_of(s.update(i, e), e.id) == Some(e),
        same_except(s, s.update(i, e), e.id),
{
    let t = s.update(i, e);
    assert forall|a: int, b: int| 0 <= a < t.len() && 0 <= b < t.len() && a != b implies #[trigger] t[a].id
        != #[trigger] t[b].id by {
        assert(s[a].id != s[b].id);
    }
    lemma_entry_at(t, i);
    assert forall|other: [u8; 16]| other != e.id implies #[trigger] entry_of(t, other) == entry_of(s, other) by {
        if exists|j: int| 0 <= j < s.len() && #[trigger] s[j].id == other {
            let j = choose|j: int| 0 <= j < s.len() && #[trigger] s[j].id == other;
            lemma_entry_at(s, j);
            assert(t[j] == s[j]);
            lemma_entry_at(t, j);
        } else {
            assert forall|j: int| 0 <= j < t.len() implies t[j].id != other by {
                if j != i {
                    assert(t[j] == s[j]);
                }
            }
            lemma_entry_absent(t, other);
        }
    }
}

proof fn lemma_push<T, C>(s: Seq<CancelEntry<T, C>>, e: CancelEntry<T, C>)
    requires
        unique_ids(s),
        entry_of(s, e.id) is None,
    ensures
        unique_ids(s.push(e)),
        entry_of(s.push(e), e.id) == Some(e),
        same_except(s, s.push(e), e.id),
{
    let t = s.push(e);
    assert forall|j: int| 0 <= j < s.len() implies s[j].id != e.id by {
        if s[j].id == e.id {
            assert(exists|k: int| 0 <= k < s.len() && #[trigger] s[k].id == e.id);
        }
    }
    assert forall|a: int, b: int| 0 <= a < t.len() && 0 <= b < t.len() && a != b implies #[trigger] t[a].id
        != #[trigger] t[b].id by {
        if a < s.len() && b < s.len() {
            assert(s[a].id != s[b].id);
        }
    }
    lemma_entry_at(t, s.len() as int);
    assert forall|other: [u8; 16]| other != e.id implies #[trigger] entry_of(t, other) == entry_of(s, other) by {
        if exists|j: int| 0 <= j < s.len() && #[trigger] s[j].id == other {
            let j = choose|j: int| 0 <= j < s.len() && #[trigger] s[j].id == other;
            lemma_entry_at(s, j);
            assert(t[j] == s[j]);
            lemma_entry_at(t, j);
        } else {
            assert forall|j: int| 0 <= j < t.len() implies t[j].id != other by {
                if j < s.len() {
                    assert(t[j] == s[j]);
                }
            }
            lemma_entry_absent(t, other);
        }
    }
}

proof fn lemma_remove<T, C>(s: Seq<CancelEntry<T, C>>, i: int)
    requires
        unique_ids(s),
        0 <= i < s.len(),
    ensures
        unique_ids(s.remove(i)),
        entry_of(s.remove(i), s[i].id) is None,
        same_except(s, s.remove(i), s[i].id),
{
    let t = s.remove(i);
    assert forall|a: int, b: int| 0 <= a < t.len() && 0 <= b < t.len() && a != b implies #[trigger] t[a].id
        != #[trigger] t[b].id by {
        let pa = if a < i { a } else { a + 1 };
        let pb = if b < i { b } else { b + 1 };
        assert(t[a] == s[pa]);
        assert(t[b] == s[pb]);
    }
    assert forall|j: int| 0 <= j < t.len() implies t[j].id != s[i].id by {
        let pj = if j < i { j } else { j + 1 };
        assert(t[j] == s[pj]);
    }
    lemma_entry_absent(t, s[i].id);
    assert forall|other: [u8; 16]| other != s[i].id implies #[trigger] entry_of(t, other) == entry_of(s, other) by {
        if exists|j: int| 0 <= j < s.len() && #[trigger] s[j].id == other {
            let j = choose|j: int| 0 <= j < s.len() && #[trigger] s[j].id == other;
            lemma_entry_at(s, j);
            let k = if j < i { j } else { j - 1 };
            assert(t[k] == s[j]);
            lemma_entry_at(t, k);
        } else {
            assert forall|j: int| 0 <= j < t.len() implies t[j].id != other by {
                let pj = if j < i { j } else { j + 1 };
                assert(t[j] == s[pj]);
            }
            lemma_entry_absent(t, other);
        }
    }
}

/// The running transfers of the shown session.
pub struct CancellationRegistry<T, C> {
    entries: Vec<CancelEntry<T, C>>,
}

impl<T, C> CancellationRegistry<T, C> {
    pub closed spec fn entries_view(&self) -> Seq<CancelEntry<T, C>> {
        self.entries@
    }

    /// The registry's invariant.
    pub open spec fn wf(&self) -> bool {
        unique_ids(self.entries_view())
    }

    /// The entry of transfer `id`, if it is registered.
    pub open spec fn lookup(&self, id: [u8; 16]) -> Option<CancelEntry<T, C>> {
        entry_of(self.entries_view(), id)
    }

    pub fn new() -> (r: Self)
        ensures
            r.wf(),
            r.entries_view() == Seq::<CancelEntry<T, C>>::empty(),
            forall|id: [u8; 16]| #[trigger] r.lookup(id) is None,
    {
        CancellationRegistry { entries: Vec::new() }
    }

    fn find(&self, id: &[u8; 16]) -> (r: Option<usize>)
        requires
            self.wf(),
        ensures
            r is None ==> self.lookup(*id) is None,
            r matches Some(i) ==> i < self.entries@.len() && self.entries@[i as int].id == *id
                && self.lookup(*id) == Some(self.entries@[i as int]),
    {
        let mut i: usize = 0;
        while i < self.entries.len()
            invariant
                i <= self.entries@.len(),
                unique_ids(self.entries@),
                forall|k: int| 0 <= k < i ==> self.entries@[k].id != *id,
            decreases self.entries.len() - i,
        {
            if ids_equal(&self.entries[i].id, id) {
                proof {
                    lemma_entry_at(self.entries@, i as int);
                }
                return Some(i);
            }
            i += 1;
        }
        proof {
            lemma_entry_absent(self.entries@, *id);
        }
        None
    }

    /// Registers transfer `id` with `fresh` as its token, unless it runs
    /// already or `current` says the session is no longer shown.
    pub fn register(&mut self, current: bool, id: [u8; 16], fresh: T) -> (r: Registration)
        requires
            old(self).wf(),
        ensures
            final(self).wf(),
            !current ==> r is Stale && final(self).entries_view() == old(self).entries_view(),
            current && old(self).lookup(id) is Some ==> r is Existing && final(self).entries_view()
                == old(self).entries_view(),
            current && old(self).lookup(id) is None ==> {
                &&& r is Inserted
                &&& final(self).lookup(id) == Some(
                    CancelEntry::<T, C> { id, token: fresh, cancelled: false, callback: None },
                )
                &&& same_except(old(self).entries_view(), final(self).entries_view(), id)
            },
    {
        if !current {
            return Registration::Stale;
        }
        match self.find(&id) {
            Some(_) => Registration::Existing,
            None => {
                let entry = CancelEntry { id, token: fresh, cancelled: false, callback: None };
                proof {
                    lemma_push(self.entries@, entry);
                }
                self.entries.push(entry);
                Registration::Inserted
            },
        }
    }

    /// The token of transfer `id`.
    pub fn token(&self, id: [u8; 16]) -> (r: Option<&T>)
        requires
            self.wf(),
        ensures
            r is None <==> self.lookup(id) is None,
            r matches Some(t) ==> self.lookup(id) matches Some(e) && *t == e.token,
    {
        match self.find(&id) {
            Some(i) => Some(&self.entries[i].token),
            None => None,
        }
    }

    /// The stored hook of transfer `id`.
    pub fn callback(&self, id: [u8; 16]) -> (r: Option<&C>)
        requires
            self.wf(),
        ensures
            r is None <==> !(self.lookup(id) matches Some(e) && e.callback is Some),
            r matches Some(c) ==> self.lookup(id) matches Some(e) && e.callback == Some(*c),
    {
        match self.find(&id) {
            Some(i) => match &self.entries[i].callback {
                Some(c) => Some(c),
                None => None,
            },
            None => None,
        }
    }

    /// Whether transfer `id` runs and was cancelled.
    pub fn is_cancelled(&self, id: [u8; 16]) -> (b: bool)
        requires
            self.wf(),
        ensures
            b == (self.lookup(id) matches Some(e) && e.cancelled),
    {
        match self.find(&id) {
            Some(i) => self.entries[i].cancelled,
            None => false,
        }
    }

    fn replace_at(&mut self, i: usize, e: CancelEntry<T, C>)
        requires
            old(self).wf(),
            i < old(self).entries@.len(),
            e.id == old(self).entries@[i as int].id,
        ensures
            final(self).entries@ == old(self).entries@.update(i as int, e),
            final(self).wf(),
            final(self).lookup(e.id) == Some(e),
            same_except(old(self).entries_view(), final(self).entries_view(), e.id),
    {
        proof {
            lemma_update(self.entries@, i as int, e);
        }
        let ghost before = self.entries@;
        self.entries.remove(i);
        self.entries.insert(i, e);
        assert(self.entries@ =~= before.update(i as int, e));
    }

    /// Attaches the hook that wakes the stream of transfer `id`.  When the
    /// transfer was cancelled before its stream existed, the hook must run
    /// at once.
    pub fn set_callback(&mut self, id: [u8; 16], callback: C) -> (r: HookOutcome)
        requires
            old(self).wf(),
        ensures
            final(self).wf(),
            old(self).lookup(id) is None ==> r is NotRegistered && final(self).entries_view()
                == old(self).entries_view(),
            old(self).lookup(id) matches Some(e) ==> {
                &&& (r is RunNow <==> e.cancelled)
                &&& (r is Stored <==> !e.cancelled)
                &&& final(self).lookup(id) == Some(CancelEntry { callback: Some(callback), ..e })
                &&& same_except(old(self).entries_view(), final(self).entries_view(), id)
            },
    {
        match self.find(&id) {
            None => HookOutcome::NotRegistered,
            Some(i) => {
                let old_entry = self.entries.remove(i);
                let cancelled = old_entry.cancelled;
                let entry = CancelEntry {
                    id: old_entry.id,
                    token: old_entry.token,
                    cancelled,
                    callback: Some(callback),
                };
                self.entries.insert(i, entry);
                proof {
                    let before = old(self).entries@;
                    assert(self.entries@ =~= before.update(i as int, entry));
                    lemma_update(before, i as int, entry);
                }
                if cancelled {
                    HookOutcome::RunNow
                } else {
                    HookOutcome::Stored
                }
            },
        }
    }

    /// Cancels transfer `id`.  Only the first request marks it; the caller
    /// then sets its token and runs its hook, if one is stored.
    pub fn cancel(&mut self, id: [u8; 16]) -> (r: CancelOutcome)
        requires
            old(self).wf(),
        ensures
            final(self).wf(),
            old(self).lookup(id) is None ==> r is NotFound && final(self).entries_view()
                == old(self).entries_view(),
            old(self).lookup(id) matches Some(e) ==> (e.cancelled ==> r is AlreadyCancelled
                && final(self).entries_view() == old(self).entries_view()),
            old(self).lookup(id) matches Some(e) ==> !e.cancelled ==> {
                &&& r is Cancelled
                &&& final(self).lookup(id) == Some(CancelEntry { cancelled: true, ..e })
                &&& same_except(old(self).entries_view(), final(self).entries_view(), id)
            },
    {
        match self.find(&id) {
            None => CancelOutcome::NotFound,
            Some(i) => {
                if self.entries[i].cancelled {
                    return CancelOutcome::AlreadyCancelled;
                }
                let old_entry = self.entries.remove(i);
                let entry = CancelEntry {
                    id: old_entry.id,
                    token: old_entry.token,
                    cancelled: true,
                    callback: old_entry.callback,
                };
                self.entries.insert(i, entry);
                proof {
                    let before = old(self).entries@;
                    assert(self.entries@ =~= before.update(i as int, entry));
                    lemma_update(before, i as int, entry);
                }
                CancelOutcome::Cancelled
            },
        }
    }

    /// Forgets transfer `id`: it ended.
    pub fn finish(&mut self, id: [u8; 16])
        requires
            old(self).wf(),
        ensures
            final(self).wf(),
            final(self).lookup(id) is None,
            same_except(old(self).entries_view(), final(self).entries_view(), id),
    {
        match self.find(&id) {
            None => {
                proof {
                    assert forall|other: [u8; 16]| other != id implies #[trigger] entry_of(
                        self.entries@,
                        other,
                    ) == entry_of(old(self).entries@, other) by {}
                }
            },
            Some(i) => {
                proof {
                    lemma_remove(self.entries@, i as int);
                }
                self.entries.remove(i);
            },
        }
    }

    /// Takes out every running transfer, when a new session begins: the
    /// caller cancels each token and runs each stored hook.
    pub fn drain(&mut self) -> (r: Vec<CancelEntry<T, C>>)
        requires
            old(self).wf(),
        ensures
            final(self).wf(),
            r@ == old(self).entries_view(),
            final(self).entries_view() == Seq::<CancelEntry<T, C>>::empty(),
            forall|id: [u8; 16]| #[trigger] final(self).lookup(id) is None,
    {
        let mut taken: Vec<CancelEntry<T, C>> = Vec::new();
        std::mem::swap(&mut taken, &mut self.entries);
        taken
    }
}

} // verus!
