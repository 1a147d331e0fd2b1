//! Items that other applications share with the app while no peer may be
//! connected: the checks an inbox entry must pass, the queue that holds the
//! accepted ones until they can be sent, and what the user interface shows
//! of them.
//!
//! The queue remembers the identifier of every entry it has accepted until
//! the entry is completed, and separately the identifiers whose delivery
//! still has to be acknowledged to the share extension, so that an entry is
//! never imported twice.

use vstd::prelude::*;
use vstd::utf8::{decode_utf8, encode_utf8, valid_utf8};
use crate::protocol::filename::{sanitize_filename, sanitize_result, FilenameError};
use crate::protocol::limits::MAX_TEXT_PAYLOAD_SIZE;
use crate::text::{chars_of, decode_utf8_string, str_eq, string_from_chars};

verus! {

/// Capacity of a backend event queue.
pub const QUEUE_LIMIT: usize = 32;
/// Most shared items waiting to be sent at once.
pub const SHARED_QUEUE_LIMIT: usize = QUEUE_LIMIT;
/// Largest shared text accepted, in bytes.
pub const SHARED_TEXT_MAX_BYTES: u64 = MAX_TEXT_PAYLOAD_SIZE;
/// Characters of a shared text shown as its preview.
pub const PREVIEW_CHARS: usize = 120;

/// A file chosen for sending: its name, size, media type and location.
#[derive(Debug, Clone)]
pub struct FileRequest {
    pub name: String,
    pub size: u64,
    pub mime: Option<String>,
    pub path: String,
}

/// A waiting shared item as the user interface lists it.
#[derive(Debug, Clone)]
pub struct SharedPendingItem {
    pub kind: String,
    pub name: String,
    pub size: u64,
    pub preview: Option<String>,
}

/// The outcome of importing the share inbox.
#[derive(Debug, Clone)]
pub struct SharedImportSummary {
    pub imported: usize,
    pub pending_items: Vec<SharedPendingItem>,
    pub queued: usize,
    pub sent: usize,
}

/// A shared item accepted from the inbox.
#[derive(Debug)]
pub enum PendingShare {
    Text { id: String, text: String },
    File { id: String, request: FileRequest },
}

/// Why an inbox entry is not accepted.
#[derive(Debug)]
pub enum SharedItemError {
    InvalidId,
    NotRegularFile,
    SizeChanged { actual: u64, declared: u64 },
    TextTooLarge,
    InvalidUtf8,
    InvalidFilename(FilenameError),
    UnsupportedKind,
}

/// The two kinds of inbox entries.
#[derive(Debug, Clone, Copy, PartialEq, Eq, Structural)]
pub enum SharedKind {
    Text,
    File,
}

/// A byte allowed in an inbox identifier: ASCII letters and digits, `-`
/// and `_`.
pub open spec fn is_id_byte(b: u8) -> bool {
    (48 <= b <= 57) || (65 <= b <= 90) || (97 <= b <= 122) || b == 45 || b == 95
}

/// An inbox identifier is 1 to 128 allowed bytes.
pub open spec fn valid_id_bytes(b: Seq<u8>) -> bool {
    &&& 0 < b.len() <= 128
    &&& forall|i: int| 0 <= i < b.len() ==> is_id_byte(#[trigger] b[i])
}

/// Whether `id` may name an inbox entry.
pub fn valid_share_id(id: &str) -> (r: bool)
    ensures
        r == valid_id_bytes(encode_utf8(id@)),
{
    let b: &[u8] = id.as_bytes();
    if b.len() == 0 || b.len() > 128 {
        return false;
    }
    let mut i: usize = 0;
    while i < b.len()
        invariant
            i <= b@.len(),
            b@ == encode_utf8(id@),
            forall|k: int| 0 <= k < i ==> is_id_byte(#[trigger] b@[k]),
        decreases b@.len() - i,
    {
        let c = b[i];
        if !((48 <= c && c <= 57) || (65 <= c && c <= 90) || (97 <= c && c <= 122) || c == 45 || c
            == 95) {
            assert(!is_id_byte(b@[i as int]));
            return false;
        }
        i += 1;
    }
    true
}

/// What the inbox entry checks decide before its payload is read: the
/// identifier, that the payload is a regular file of the declared size, the
/// kind, and the size limit of a text.
pub open spec fn entry_verdict(
    id_bytes: Seq<u8>,
    kind: Seq<char>,
    declared_size: u64,
    is_regular_file: bool,
    actual_size: u64,
) -> Result<SharedKind, SharedItemError> {
    if !valid_id_bytes(id_bytes) {
        Err(SharedItemError::InvalidId)
    } else if !is_regular_file {
        Err(SharedItemError::NotRegularFile)
    } else if actual_size != declared_size {
        Err(SharedItemError::SizeChanged { actual: actual_size, declared: declared_size })
    } else if kind == seq!['t', 'e', 'x', 't'] {
        if declared_size > SHARED_TEXT_MAX_BYTES {
            Err(SharedItemError::TextTooLarge)
        } else {
            Ok(SharedKind::Text)
        }
    } else if kind == seq!['f', 'i', 'l', 'e'] {
        Ok(SharedKind::File)
    } else {
        Err(SharedItemError::UnsupportedKind)
    }
}

/// Checks an inbox entry: `is_regular_file` and `actual_size` describe what
/// lies at its path (without following a symbolic link).
pub fn check_shared_entry(
    id: &str,
    kind: &str,
    declared_size: u64,
    is_regular_file: bool,
    actual_size: u64,
) -> (r: Result<SharedKind, SharedItemError>)
    ensures
        r == entry_verdict(encode_utf8(id@), kind@, declared_size, is_regular_file, actual_size),
{
    if !valid_share_id(id) {
        return Err(SharedItemError::InvalidId);
    }
    if !is_regular_file {
        return Err(SharedItemError::NotRegularFile);
    }
    if actual_size != declared_size {
        return Err(SharedItemError::SizeChanged { actual: actual_size, declared: declared_size });
    }
    let text_kind = "text";
    let file_kind = "file";
    proof {
        reveal_strlit("text");
        reveal_strlit("file");
        assert(text_kind@ =~= seq!['t', 'e', 'x', 't']);
        assert(file_kind@ =~= seq!['f', 'i', 'l', 'e']);
    }
    if str_eq(kind, text_kind) {
        if declared_size > SHARED_TEXT_MAX_BYTES {
            return Err(SharedItemError::TextTooLarge);
        }
        Ok(SharedKind::Text)
    } else if str_eq(kind, file_kind) {
        Ok(SharedKind::File)
    } else {
        Err(SharedItemError::UnsupportedKind)
    }
}

/// A checked text entry: its payload must be UTF-8.
pub fn shared_text(id: String, payload: &[u8]) -> (r: Result<PendingShare, SharedItemError>)
    ensures
        !valid_utf8(payload@) ==> r matches Err(SharedItemError::InvalidUtf8),
        valid_utf8(payload@) ==> (r matches Ok(PendingShare::Text { id: i, text }) && i == id
            && text@ == decode_utf8(payload@)),
{
    match decode_utf8_string(payload) {
        Some(text) => Ok(PendingShare::Text { id, text }),
        None => Err(SharedItemError::InvalidUtf8),
    }
}

/// A checked file entry: its name is sanitized as a received name would be.
pub fn shared_file(id: String, name: &str, size: u64, mime: Option<String>, path: String) -> (r:
    Result<PendingShare, SharedItemError>)
    ensures
        match sanitize_result(name@) {
            Ok(n) => r matches Ok(PendingShare::File { id: i, request }) && i == id
                && request.name@ == n && request.size == size && request.mime == mime
                && request.path == path,
            Err(len) => r matches Err(SharedItemError::InvalidFilename(FilenameError::FilenameTooLong(l)))
                && l == len,
        },
{
    match sanitize_filename(name) {
        Ok(n) => Ok(PendingShare::File { id, request: FileRequest { name: n, size, mime, path } }),
        Err(e) => Err(SharedItemError::InvalidFilename(e)),
    }
}

/// The preview of a shared text: nothing for an empty text, the text itself
/// when it has at most 120 characters, else its first 120 characters and
/// an ellipsis.
pub open spec fn preview_of(text: Seq<char>) -> Option<Seq<char>> {
    if text.len() == 0 {
        None
    } else if text.len() > PREVIEW_CHARS {
        Some(text.take(PREVIEW_CHARS as int).push('\u{2026}'))
    } else {
        Some(text)
    }
}

/// `item` is how the user interface lists `share`.
pub open spec fn lists(item: SharedPendingItem, share: PendingShare) -> bool {
    match share {
        PendingShare::Text { text, .. } => {
            &&& item.kind@ == seq!['t', 'e', 'x', 't']
            &&& item.name@ == "shared-text.txt"@
            &&& item.size == encode_utf8(text@).len()
            &&& match preview_of(text@) {
                None => item.preview is None,
                Some(p) => item.preview matches Some(s) && s@ == p,
            }
        },
        PendingShare::File { request, .. } => {
            &&& item.kind@ == seq!['f', 'i', 'l', 'e']
            &&& item.name@ == request.name@
            &&& item.size == request.size
            &&& item.preview is None
        },
    }
}

fn preview(text: &str) -> (r: Option<String>)
    ensures
        match preview_of(text@) {
            None => r is None,
            Some(p) => r matches Some(s) && s@ == p,
        },
{
    let chars = chars_of(text);
    if chars.len() == 0 {
        return None;
    }
    let mut shown: Vec<char> = Vec::new();
    let mut i: usize = 0;
    while i < chars.len() && i < PREVIEW_CHARS
        invariant
            i <= chars@.len(),
            i <= PREVIEW_CHARS,
            shown@ == chars@.take(i as int),
        decreases PREVIEW_CHARS - i,
    {
        shown.push(chars[i]);
        i += 1;
        assert(shown@ =~= chars@.take(i as int));
    }
    if chars.len() > PREVIEW_CHARS {
        shown.push('\u{2026}');
    } else {
        assert(shown@ =~= chars@);
    }
    Some(string_from_chars(&shown))
}

impl PendingShare {
    /// The inbox identifier of this item.
    pub open spec fn id_view(&self) -> Seq<char> {
        match self {
            PendingShare::Text { id, .. } => id@,
            PendingShare::File { id, .. } => id@,
        }
    }

    pub fn id(&self) -> (r: &str)
        ensures
            r@ == self.id_view(),
    {
        match self {
            PendingShare::Text { id, .. } => id.as_str(),
            PendingShare::File { id, .. } => id.as_str(),
        }
    }

    /// How the user interface lists this item.
    pub fn ui_item(&self) -> (r: SharedPendingItem)
        ensures
            lists(r, *self),
    {
        match self {
            PendingShare::Text { text, .. } => {
                let kind = "text";
                let name = "shared-text.txt";
                proof {
                    reveal_strlit("text");
                    assert(kind@ =~= seq!['t', 'e', 'x', 't']);
                }
                let size = text.as_str().as_bytes().len() as u64;
                SharedPendingItem {
                    kind: kind.to_owned(),
                    name: name.to_owned(),
                    size,
                    preview: preview(text.as_str()),
                }
            },
            PendingShare::File { request, .. } => {
                let kind = "file";
                proof {
                    reveal_strlit("file");
                    assert(kind@ =~= seq!['f', 'i', 'l', 'e']);
                }
                SharedPendingItem {
                    kind: kind.to_owned(),
                    name: request.name.as_str().to_owned(),
                    size: request.size,
                    preview: None,
                }
            },
        }
    }
}

/// The texts named in `v`.
pub open spec fn names(v: Seq<String>) -> Set<Seq<char>> {
    Set::new(|s: Seq<char>| exists|i: int| 0 <= i < v.len() && #[trigger] v[i]@ == s)
}

proof fn lemma_names_push(v: Seq<String>, x: String)
    ensures
        names(v.push(x)) == names(v).insert(x@),
{
    assert forall|t: Seq<char>| names(v.push(x)).contains(t) <==> names(v).insert(x@).contains(
        t,
    ) by {
        if names(v.push(x)).contains(t) {
            let i = choose|i: int| 0 <= i < v.push(x).len() && #[trigger] v.push(x)[i]@ == t;
            if i < v.len() {
                assert(v[i]@ == t);
            }
        }
        if names(v).contains(t) {
            let i = choose|i: int| 0 <= i < v.len() && #[trigger] v[i]@ == t;
            assert(v.push(x)[i]@ == t);
        }
        if t == x@ {
            assert(v.push(x)[v.len() as int]@ == t);
        }
    }
    assert(names(v.push(x)) =~= names(v).insert(x@));
}

proof fn lemma_names_empty()
    ensures
        names(Seq::<String>::empty()) == Set::<Seq<char>>::empty(),
{
    assert(names(Seq::<String>::empty()) =~= Set::<Seq<char>>::empty());
}

fn mentions(v: &Vec<String>, id: &str) -> (r: bool)
    ensures
        r == names(v@).contains(id@),
{
    let mut i: usize = 0;
    while i < v.len()
        invariant
            i <= v@.len(),
            forall|k: int| 0 <= k < i ==> (#[trigger] v@[k])@ != id@,
        decreases v@.len() - i,
    {
        if str_eq(v[i].as_str(), id) {
            assert(v@[i as int]@ == id@);
            return true;
        }
        i += 1;
    }
    assert(!names(v@).contains(id@));
    false
}

fn without(v: &Vec<String>, id: &str) -> (r: Vec<String>)
    ensures
        names(r@) == names(v@).remove(id@),
{
    let mut r: Vec<String> = Vec::new();
    let mut i: usize = 0;
    proof {
        lemma_names_empty();
        assert(v@.take(0) =~= Seq::<String>::empty());
        assert(names(v@.take(0)).remove(id@) =~= Set::<Seq<char>>::empty());
    }
    while i < v.len()
        invariant
            i <= v@.len(),
            names(r@) == names(v@.take(i as int)).remove(id@),
        decreases v@.len() - i,
    {
        let s = v[i].as_str();
        proof {
            assert(v@.take(i + 1) =~= v@.take(i as int).push(v@[i as int]));
            lemma_names_push(v@.take(i as int), v@[i as int]);
        }
        if !str_eq(s, id) {
            let copy = s.to_owned();
            proof {
                lemma_names_push(r@, copy);
            }
            r.push(copy);
            assert(names(r@) =~= names(v@.take(i + 1)).remove(id@));
        } else {
            assert(names(r@) =~= names(v@.take(i + 1)).remove(id@));
        }
        i += 1;
    }
    assert(v@.take(v@.len() as int) =~= v@);
    r
}

fn copy_names(v: &Vec<String>) -> (r: Vec<String>)
    ensures
        names(r@) == names(v@),
{
    let mut r: Vec<String> = Vec::new();
    let mut i: usize = 0;
    proof {
        lemma_names_empty();
        assert(v@.take(0) =~= Seq::<String>::empty());
    }
    while i < v.len()
        invariant
            i <= v@.len(),
            names(r@) == names(v@.take(i as int)),
        decreases v@.len() - i,
    {
        let copy = v[i].as_str().to_owned();
        proof {
            assert(v@.take(i + 1) =~= v@.take(i as int).push(v@[i as int]));
            lemma_names_push(v@.take(i as int), v@[i as int]);
            lemma_names_push(r@, copy);
        }
        r.push(copy);
        i += 1;
    }
    assert(v@.take(v@.len() as int) =~= v@);
    r
}

/// Accepted shared items waiting to be sent, with the identifiers the
/// queue remembers.
pub struct PendingShareQueue {
    items: Vec<PendingShare>,
    ids: Vec<String>,
    acknowledgement_pending: Vec<String>,
    draining: bool,
}

impl PendingShareQueue {
    /// The waiting items, first to be sent first.
    pub closed spec fn items_view(&self) -> Seq<PendingShare> {
        self.items@
    }

    /// Identifiers of the items accepted and not yet completed.
    pub closed spec fn held(&self) -> Set<Seq<char>> {
        names(self.ids@)
    }

    /// Identifiers of sent items whose acknowledgement is still owed.
    pub closed spec fn awaiting_ack(&self) -> Set<Seq<char>> {
        names(self.acknowledgement_pending@)
    }

    /// Whether a drain of the queue is under way.
    pub closed spec fn is_draining(&self) -> bool {
        self.draining
    }

    /// Whether the queue knows the identifier `id`.
    pub open spec fn knows(&self, id: Seq<char>) -> bool {
        self.held().contains(id) || self.awaiting_ack().contains(id)
    }

    pub fn new() -> (q: Self)
        ensures
            q.items_view() == Seq::<PendingShare>::empty(),
            q.held() == Set::<Seq<char>>::empty(),
            q.awaiting_ack() == Set::<Seq<char>>::empty(),
            !q.is_draining(),
    {
        proof {
            lemma_names_empty();
        }
        PendingShareQueue {
            items: Vec::new(),
            ids: Vec::new(),
            acknowledgement_pending: Vec::new(),
            draining: false,
        }
    }

    /// Accepts an item: `Ok(false)` when its identifier is already known,
    /// an error when the queue is full, else the item joins the back of the
    /// queue and its identifier is remembered.
    pub fn enqueue(&mut self, item: PendingShare) -> (r: Result<bool, String>)
        ensures
            old(self).knows(item.id_view()) ==> r == Ok::<bool, String>(false) && *final(self)
                == *old(self),
            !old(self).knows(item.id_view()) && old(self).items_view().len()
                >= SHARED_QUEUE_LIMIT ==> (r matches Err(s) && s@
                == "Too many shared items are waiting (limit: 32)"@) && *final(self) == *old(self),
            !old(self).knows(item.id_view()) && old(self).items_view().len() < SHARED_QUEUE_LIMIT
                ==> {
                &&& r == Ok::<bool, String>(true)
                &&& final(self).items_view() == old(self).items_view().push(item)
                &&& final(self).held() == old(self).held().insert(item.id_view())
                &&& final(self).awaiting_ack() == old(self).awaiting_ack()
                &&& final(self).is_draining() == old(self).is_draining()
            },
    {
        let known = mentions(&self.ids, item.id()) || mentions(
            &self.acknowledgement_pending,
            item.id(),
        );
        if known {
            return Ok(false);
        }
        if self.items.len() >= SHARED_QUEUE_LIMIT {
            let message = "Too many shared items are waiting (limit: 32)";
            return Err(message.to_owned());
        }
        let id = item.id().to_owned();
        proof {
            lemma_names_push(self.ids@, id);
        }
        self.ids.push(id);
        self.items.push(item);
        Ok(true)
    }

    /// Takes the item at the front of the queue; its identifier stays
    /// remembered until it is completed.
    pub fn take(&mut self) -> (r: Option<PendingShare>)
        ensures
            old(self).items_view().len() == 0 ==> r is None && *final(self) == *old(self),
            old(self).items_view().len() > 0 ==> {
                &&& r == Some(old(self).items_view()[0])
                &&& final(self).items_view() == old(self).items_view().drop_first()
                &&& final(self).held() == old(self).held()
                &&& final(self).awaiting_ack() == old(self).awaiting_ack()
                &&& final(self).is_draining() == old(self).is_draining()
            },
    {
        if self.items.len() == 0 {
            return None;
        }
        let first = self.items.remove(0);
        assert(self.items@ =~= old(self).items@.drop_first());
        Some(first)
    }

    /// Puts an item back at the front of the queue.
    pub fn requeue_front(&mut self, item: PendingShare)
        ensures
            final(self).items_view() == seq![item] + old(self).items_view(),
            final(self).held() == old(self).held(),
            final(self).awaiting_ack() == old(self).awaiting_ack(),
            final(self).is_draining() == old(self).is_draining(),
    {
        self.items.insert(0, item);
        assert(self.items@ =~= seq![item] + old(self).items@);
    }

    /// Forgets the identifier of a completed item.
    pub fn complete(&mut self, id: &str)
        ensures
            final(self).items_view() == old(self).items_view(),
            final(self).held() == old(self).held().remove(id@),
            final(self).awaiting_ack() == old(self).awaiting_ack(),
            final(self).is_draining() == old(self).is_draining(),
    {
        self.ids = without(&self.ids, id);
    }

    /// Remembers that the delivery of `id` still has to be acknowledged.
    pub fn mark_acknowledgement_pending(&mut self, id: String)
        ensures
            final(self).items_view() == old(self).items_view(),
            final(self).held() == old(self).held(),
            final(self).awaiting_ack() == old(self).awaiting_ack().insert(id@),
            final(self).is_draining() == old(self).is_draining(),
    {
        proof {
            lemma_names_push(self.acknowledgement_pending@, id);
        }
        self.acknowledgement_pending.push(id);
    }

    /// Forgets an acknowledged identifier.
    pub fn clear_acknowledgement(&mut self, id: &str)
        ensures
            final(self).items_view() == old(self).items_view(),
            final(self).held() == old(self).held(),
            final(self).awaiting_ack() == old(self).awaiting_ack().remove(id@),
            final(self).is_draining() == old(self).is_draining(),
    {
        self.acknowledgement_pending = without(&self.acknowledgement_pending, id);
    }

    /// Whether an inbox entry with identifier `id` is already known.
    pub fn contains(&self, id: &str) -> (r: bool)
        ensures
            r == self.knows(id@),
    {
        mentions(&self.ids, id) || mentions(&self.acknowledgement_pending, id)
    }

    /// The identifiers whose acknowledgement is still owed.
    pub fn acknowledgement_ids(&self) -> (r: Vec<String>)
        ensures
            names(r@) == self.awaiting_ack(),
    {
        copy_names(&self.acknowledgement_pending)
    }

    /// Number of waiting items.
    pub fn len(&self) -> (n: usize)
        ensures
            n == self.items_view().len(),
    {
        self.items.len()
    }

    /// The waiting items as the user interface lists them, in queue order.
    pub fn ui_items(&self) -> (r: Vec<SharedPendingItem>)
        ensures
            r@.len() == self.items_view().len(),
            forall|i: int| 0 <= i < r@.len() ==> lists(#[trigger] r@[i], self.items_view()[i]),
    {
        let mut r: Vec<SharedPendingItem> = Vec::new();
        let mut i: usize = 0;
        while i < self.items.len()
            invariant
                i <= self.items@.len(),
                r@.len() == i,
                forall|k: int| 0 <= k < i ==> lists(#[trigger] r@[k], self.items@[k]),
            decreases self.items@.len() - i,
        {
            r.push(self.items[i].ui_item());
            i += 1;
        }
        r
    }

    /// Starts a drain unless one is under way or nothing waits; says
    /// whether it started.
    pub fn begin_drain(&mut self) -> (started: bool)
        ensures
            started == (!old(self).is_draining() && old(self).items_view().len() > 0),
            final(self).items_view() == old(self).items_view(),
            final(self).held() == old(self).held(),
            final(self).awaiting_ack() == old(self).awaiting_ack(),
            final(self).is_draining() == (old(self).is_draining() || started),
    {
        if self.draining || self.items.len() == 0 {
            return false;
        }
        self.draining = true;
        true
    }

    /// Ends a drain.
    pub fn finish_drain(&mut self)
        ensures
            final(self).items_view() == old(self).items_view(),
            final(self).held() == old(self).held(),
            final(self).awaiting_ack() == old(self).awaiting_ack(),
            !final(self).is_draining(),
    {
        self.draining = false;
    }
}

} // verus!
