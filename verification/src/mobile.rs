//! Decisions of the mobile applications' stream handlers: the `NAME:`
//! header of the live file stream as they parse it, the text stream's line
//! splitting, the receive side of the live file stream, and where a scanned
//! or pasted value names the peer.
//!
//! The applications read the native streams, write files and update their
//! user interface; these functions decide what each step means.

use vstd::prelude::*;
use vstd::utf8::{decode_utf8, encode_utf8, valid_utf8};
use crate::protocol::filename::{sanitize_filename, sanitize_result};
use crate::text::{
    chars_of, extend_from, find_last, last_index, lemma_last_index, parse_u64, parse_u64_chars,
    string_from_chars, sub_vec, trim, trim_chars, first_index, find_first, lemma_first_index,
    from_utf8_lossy, utf8_lossy,
};

verus! {

/// The live text stream is read up to this many buffered bytes.
pub const MAX_TEXT_STREAM_BYTES: usize = 1048576;
/// A live file header longer than this is refused.
pub const MAX_FILE_HEADER_BYTES: usize = 8192;

/// What the mobile receivers take from a header line: the sanitized name
/// and the size, with the size trimmed before it is parsed.
pub open spec fn file_header_of(line: Seq<char>) -> Option<(Seq<char>, u64)> {
    let prefix: Seq<char> = seq!['N', 'A', 'M', 'E', ':'];
    if !(line.len() >= 5 && line.take(5) == prefix) {
        None
    } else {
        let rest = line.skip(5);
        let colon = last_index(rest, ':');
        if colon < 0 {
            None
        } else {
            match parse_u64(trim(rest.skip(colon + 1))) {
                None => None,
                Some(size) => match sanitize_result(rest.take(colon)) {
                    Ok(name) => Some((name, size)),
                    Err(_) => None,
                },
            }
        }
    }
}

/// Parses a `NAME:<filename>:<size>` header line; the last colon separates
/// the size, and the name is sanitized.
pub fn parse_file_header(line: &str) -> (r: Option<(String, u64)>)
    ensures
        match file_header_of(line@) {
            None => r is None,
            Some((name, size)) => r matches Some((n, s)) && n@ == name && s == size,
        },
{
    let chars = chars_of(line);
    let prefix = ['N', 'A', 'M', 'E', ':'];
    proof {
        assert(prefix@ =~= seq!['N', 'A', 'M', 'E', ':']);
    }
    if !(chars.len() >= 5 && chars[0] == 'N' && chars[1] == 'A' && chars[2] == 'M' && chars[3] == 'E'
        && chars[4] == ':') {
        proof {
            if chars@.len() >= 5 && chars@.take(5) == prefix@ {
                assert(chars@.take(5)[0] == chars@[0]);
                assert(chars@.take(5)[1] == chars@[1]);
                assert(chars@.take(5)[2] == chars@[2]);
                assert(chars@.take(5)[3] == chars@[3]);
                assert(chars@.take(5)[4] == chars@[4]);
            }
        }
        return None;
    }
    assert(chars@.take(5) =~= prefix@);
    let rest = sub_vec(&chars, 5, chars.len());
    assert(rest@ =~= chars@.skip(5));
    proof {
        lemma_last_index(rest@, ':');
    }
    let colon = match find_last(&rest, ':') {
        Some(c) => c,
        None => {
            return None;
        },
    };
    let size_text = trim_chars(&sub_vec(&rest, colon + 1, rest.len()));
    assert(rest@.subrange(colon + 1, rest@.len() as int) =~= rest@.skip(colon + 1));
    let size = match parse_u64_chars(&size_text) {
        Some(s) => s,
        None => {
            return None;
        },
    };
    let raw_name = string_from_chars(&sub_vec(&rest, 0, colon));
    assert(rest@.subrange(0, colon as int) =~= rest@.take(colon as int));
    match sanitize_filename(raw_name.as_str()) {
        Ok(name) => Some((name, size)),
        Err(_) => None,
    }
}

// ---------------------------------------------------------------------------
// Text stream lines.
// ---------------------------------------------------------------------------

/// Index of the first line end in `b`, or -1.
pub open spec fn newline_index(b: Seq<u8>) -> int
    decreases b.len(),
{
    if b.len() == 0 {
        -1
    } else if b[0] == 10 {
        0
    } else if newline_index(b.drop_first()) < 0 {
        -1
    } else {
        newline_index(b.drop_first()) + 1
    }
}

pub proof fn lemma_newline_index(b: Seq<u8>)
    ensures
        -1 <= newline_index(b) < b.len(),
        newline_index(b) >= 0 ==> b[newline_index(b)] == 10,
        forall|k: int|
            0 <= k < b.len() && (newline_index(b) < 0 || k < newline_index(b)) ==> b[k] != 10,
    decreases b.len(),
{
    if b.len() > 0 && b[0] != 10 {
        lemma_newline_index(b.drop_first());
        assert forall|k: int|
            0 <= k < b.len() && (newline_index(b) < 0 || k < newline_index(b)) implies b[k] != 10 by {
            if k > 0 {
                assert(b[k] == b.drop_first()[k - 1]);
            }
        }
    }
}

/// The complete lines of `b` (without their line ends), in order.
pub open spec fn complete_lines(b: Seq<u8>) -> Seq<Seq<u8>>
    decreases b.len(),
{
    if newline_index(b) < 0 {
        Seq::empty()
    } else {
        proof {
            lemma_newline_index(b);
        }
        seq![b.take(newline_index(b))] + complete_lines(b.skip(newline_index(b) + 1))
    }
}

/// What follows the last line end of `b`.
pub open spec fn unfinished_line(b: Seq<u8>) -> Seq<u8>
    decreases b.len(),
{
    if newline_index(b) < 0 {
        b
    } else {
        proof {
            lemma_newline_index(b);
        }
        unfinished_line(b.skip(newline_index(b) + 1))
    }
}

fn find_newline_from(b: &[u8], start: usize) -> (r: Option<usize>)
    requires
        start <= b@.len(),
    ensures
        r is None ==> newline_index(b@.skip(start as int)) < 0,
        r matches Some(p) ==> start <= p < b@.len() && newline_index(b@.skip(start as int)) == p - start,
{
    let ghost x = b@.skip(start as int);
    proof {
        lemma_newline_index(x);
    }
    let mut i: usize = start;
    while i < b.len()
        invariant
            start <= i <= b@.len(),
            x == b@.skip(start as int),
            forall|k: int| start <= k < i ==> b@[k] != 10,
        decreases b.len() - i,
    {
        if b[i] == 10 {
            proof {
                lemma_newline_index(x);
                let ni = newline_index(x);
                let q = i - start;
                assert(x[q] == 10);
                if ni < 0 || ni > q {
                    assert(x[q] != 10);
                } else if ni < q {
                    assert(x[ni] == b@[start + ni]);
                }
            }
            return Some(i);
        }
        i += 1;
    }
    proof {
        lemma_newline_index(x);
        let ni = newline_index(x);
        if ni >= 0 {
            assert(x[ni] == b@[start + ni]);
        }
    }
    None
}

/// The text stream's buffer: bytes after the last complete line, and
/// whether the stream was given up because a line grew too long.
pub struct LineCollector {
    pending: Vec<u8>,
    discarded: bool,
}

impl LineCollector {
    pub closed spec fn pending_view(&self) -> Seq<u8> {
        self.pending@
    }

    pub closed spec fn discarded_view(&self) -> bool {
        self.discarded
    }

    /// The buffer never holds more than the limit.
    pub open spec fn wf(&self) -> bool {
        self.pending_view().len() <= MAX_TEXT_STREAM_BYTES
    }

    pub fn new() -> (r: Self)
        ensures
            r.wf(),
            r.pending_view().len() == 0,
            !r.discarded_view(),
    {
        LineCollector { pending: Vec::new(), discarded: false }
    }

    /// Takes the next chunk.  When the buffer would grow beyond the limit
    /// the stream is given up (`None`); otherwise the complete lines are
    /// returned, decoded leniently.
    pub fn push(&mut self, chunk: &[u8]) -> (r: Option<Vec<String>>)
        requires
            old(self).wf(),
            !old(self).discarded_view(),
        ensures
            final(self).wf(),
            old(self).pending_view().len() + chunk@.len() > MAX_TEXT_STREAM_BYTES ==> r is None
                && final(self).discarded_view() && final(self).pending_view() == old(self).pending_view(),
            old(self).pending_view().len() + chunk@.len() <= MAX_TEXT_STREAM_BYTES ==> {
                let all = old(self).pending_view() + chunk@;
                &&& !final(self).discarded_view()
                &&& final(self).pending_view() == unfinished_line(all)
                &&& r matches Some(lines)
                &&& lines@.len() == complete_lines(all).len()
                &&& forall|i: int|
                    0 <= i < lines@.len() ==> (#[trigger] lines@[i])@ == utf8_lossy(complete_lines(all)[i])
            },
    {
        if chunk.len() > MAX_TEXT_STREAM_BYTES - self.pending.len() {
            self.discarded = true;
            return None;
        }
        extend_from(&mut self.pending, chunk);
        let ghost all = self.pending@;
        let mut lines: Vec<String> = Vec::new();
        let mut start: usize = 0;
        let n = self.pending.len();
        let mut scanning = true;
        assert(all.skip(0) =~= all);
        while scanning && start < n
            invariant
                start <= n == self.pending@.len(),
                self.pending@ == all,
                all.len() <= MAX_TEXT_STREAM_BYTES,
                !self.discarded,
                lines@.len() + complete_lines(all.skip(start as int)).len() == complete_lines(all).len(),
                forall|i: int|
                    0 <= i < lines@.len() ==> (#[trigger] lines@[i])@ == utf8_lossy(complete_lines(all)[i]),
                forall|i: int|
                    0 <= i < complete_lines(all.skip(start as int)).len() ==> complete_lines(all)[lines@.len() + i]
                        == #[trigger] complete_lines(all.skip(start as int))[i],
                unfinished_line(all.skip(start as int)) == unfinished_line(all),
                !scanning ==> newline_index(all.skip(start as int)) < 0,
            decreases (n - start) + (if scanning { 1int } else { 0int }),
        {
            let ghost rest = all.skip(start as int);
            match find_newline_from(&self.pending, start) {
                Some(p) => {
                    let line = sub_vec(&self.pending, start, p);
                    let ghost next = all.skip(p + 1);
                    proof {
                        lemma_newline_index(rest);
                        assert(line@ =~= rest.take(p - start));
                        assert(rest.skip(p - start + 1) =~= next);
                        assert(complete_lines(rest) == seq![rest.take(p - start)] + complete_lines(next));
                        assert(unfinished_line(rest) == unfinished_line(next));
                    }
                    let ghost before = lines@;
                    lines.push(from_utf8_lossy(&line));
                    proof {
                        assert(complete_lines(all)[before.len() as int] == complete_lines(rest)[0]);
                        assert forall|i: int| 0 <= i < lines@.len() implies (#[trigger] lines@[i])@
                            == utf8_lossy(complete_lines(all)[i]) by {
                            if i < before.len() {
                                assert(lines@[i] == before[i]);
                            }
                        }
                        assert forall|i: int| 0 <= i < complete_lines(next).len() implies complete_lines(
                            all,
                        )[lines@.len() + i] == #[trigger] complete_lines(next)[i] by {
                            assert(complete_lines(rest)[i + 1] == complete_lines(next)[i]);
                            assert(complete_lines(all)[before.len() as int + (i + 1)] == complete_lines(rest)[i + 1]);
                        }
                    }
                    start = p + 1;
                },
                None => {
                    scanning = false;
                },
            }
        }
        let ghost rest = all.skip(start as int);
        proof {
            if scanning {
                assert(rest =~= Seq::<u8>::empty());
            }
            assert(newline_index(rest) < 0);
            assert(complete_lines(rest) =~= Seq::<Seq<u8>>::empty());
            assert(unfinished_line(rest) == rest);
        }
        let tail = sub_vec(&self.pending, start, n);
        assert(tail@ =~= rest);
        self.pending = tail;
        Some(lines)
    }

    /// The stream ended: an unfinished last line is delivered too, unless
    /// the stream was given up.
    pub fn finish(&self) -> (r: Option<String>)
        ensures
            !self.discarded_view() && self.pending_view().len() > 0 ==> (r matches Some(s) && s@
                == utf8_lossy(self.pending_view())),
            self.discarded_view() || self.pending_view().len() == 0 ==> r is None,
    {
        if !self.discarded && self.pending.len() > 0 {
            Some(from_utf8_lossy(&self.pending))
        } else {
            None
        }
    }
}

// ---------------------------------------------------------------------------
// Receiving a live file.
// ---------------------------------------------------------------------------

/// What the application does with one chunk of a received file.
pub struct FileActions {
    /// The header just arrived: create the file for this name and size.
    pub open: Option<(String, u64)>,
    /// Bytes to append to the file.
    pub write: Vec<u8>,
    /// More bytes arrived than the header announced.
    pub overflow: bool,
}

/// The receive side of the live file stream as the mobile applications run
/// it: the header line first, then the body.
pub struct FileReceiver {
    header: Option<(String, u64)>,
    pending: Vec<u8>,
    received: u64,
}

impl FileReceiver {
    pub closed spec fn header_view(&self) -> Option<(Seq<char>, u64)> {
        match self.header {
            Some((n, s)) => Some((n@, s)),
            None => None,
        }
    }

    pub closed spec fn pending_view(&self) -> Seq<u8> {
        self.pending@
    }

    pub closed spec fn received_view(&self) -> u64 {
        self.received
    }

    /// No header yet means no body either; after the header nothing waits.
    pub open spec fn wf(&self) -> bool {
        &&& self.header_view() is None ==> self.received_view() == 0
        &&& self.header_view() is Some ==> self.pending_view().len() == 0
    }

    pub fn new() -> (r: Self)
        ensures
            r.wf(),
            r.header_view() is None,
            r.pending_view().len() == 0,
            r.received_view() == 0,
    {
        FileReceiver { header: None, pending: Vec::new(), received: 0 }
    }

    /// Takes the next chunk of the stream.
    pub fn on_data(&mut self, chunk: &[u8]) -> (r: Result<FileActions, String>)
        requires
            old(self).wf(),
            old(self).received_view() + chunk@.len() <= u64::MAX,
        ensures
            final(self).wf(),
            old(self).header_view() matches Some((_, total)) ==> {
                &&& r matches Ok(a)
                &&& a.open is None
                &&& a.write@ == chunk@
                &&& final(self).received_view() == old(self).received_view() + chunk@.len()
                &&& a.overflow == (total > 0 && final(self).received_view() > total)
                &&& final(self).header_view() == old(self).header_view()
            },
            old(self).header_view() is None ==> {
                let all = old(self).pending_view() + chunk@;
                let p = newline_index(all);
                if p < 0 {
                    if all.len() > MAX_FILE_HEADER_BYTES {
                        r matches Err(m) && m@ == "File header too large"@
                    } else {
                        &&& r matches Ok(a)
                        &&& a.open is None && a.write@.len() == 0 && !a.overflow
                        &&& final(self).pending_view() == all
                        &&& final(self).header_view() is None
                    }
                } else {
                    let line = utf8_lossy(all.take(p));
                    match file_header_of(line) {
                        None => r matches Err(m) && m@ == "Invalid file header: "@ + line,
                        Some((name, size)) => {
                            &&& r matches Ok(a)
                            &&& a.open matches Some((n, s)) && n@ == name && s == size
                            &&& a.write@ == all.skip(p + 1)
                            &&& final(self).header_view() == Some((name, size))
                            &&& final(self).received_view() == all.len() - (p + 1)
                            &&& a.overflow == (size > 0 && final(self).received_view() > size)
                        },
                    }
                }
            },
    {
        if let Some((_, total)) = &self.header {
            let total = *total;
            let mut write: Vec<u8> = Vec::new();
            extend_from(&mut write, chunk);
            self.received = self.received + chunk.len() as u64;
            let overflow = total > 0 && self.received > total;
            return Ok(FileActions { open: None, write, overflow });
        }
        extend_from(&mut self.pending, chunk);
        let all_len = self.pending.len();
        match find_newline_from(&self.pending, 0) {
            None => {
                assert(self.pending@.skip(0) =~= self.pending@);
                if all_len > MAX_FILE_HEADER_BYTES {
                    return Err("File header too large".to_owned());
                }
                Ok(FileActions { open: None, write: Vec::new(), overflow: false })
            },
            Some(p) => {
                assert(self.pending@.skip(0) =~= self.pending@);
                let line_bytes = sub_vec(&self.pending, 0, p);
                let line = from_utf8_lossy(&line_bytes);
                assert(line_bytes@ =~= self.pending@.take(p as int));
                match parse_file_header(line.as_str()) {
                    None => {
                        let mut msg = chars_of("Invalid file header: ");
                        extend_from(&mut msg, &chars_of(line.as_str()));
                        Err(string_from_chars(&msg))
                    },
                    Some((name, size)) => {
                        let write = sub_vec(&self.pending, p + 1, all_len);
                        assert(write@ =~= self.pending@.skip(p + 1));
                        self.pending = Vec::new();
                        self.received = write.len() as u64;
                        let overflow = size > 0 && self.received > size;
                        let open_name = name.clone();
                        self.header = Some((name, size));
                        Ok(FileActions { open: Some((open_name, size)), write, overflow })
                    },
                }
            },
        }
    }

    /// The stream ended without an error: whether the file is complete (a
    /// header arrived, and as many bytes as it announced, unless it
    /// announced none).
    pub fn is_complete(&self) -> (b: bool)
        ensures
            b == (self.header_view() matches Some((_, total)) && (total == 0 || self.received_view()
                == total)),
    {
        match &self.header {
            Some((_, total)) => *total == 0 || self.received == *total,
            None => false,
        }
    }
}

// ---------------------------------------------------------------------------
// The peer named by a scanned or pasted value.
// ---------------------------------------------------------------------------

/// Index of the first occurrence of `p` in `s`, or -1.
pub open spec fn find_text(s: Seq<char>, p: Seq<char>) -> int {
    if exists|i: int| 0 <= i <= s.len() - p.len() && #[trigger] s.subrange(i, i + p.len()) == p {
        choose|i: int|
            0 <= i <= s.len() - p.len() && #[trigger] s.subrange(i, i + p.len()) == p && forall|j: int|
                0 <= j < i ==> #[trigger] s.subrange(j, j + p.len()) != p
    } else {
        -1
    }
}

fn find_text_exec(s: &[char], p: &[char]) -> (r: Option<usize>)
    requires
        p@.len() > 0,
    ensures
        r is None ==> find_text(s@, p@) == -1,
        r matches Some(i) ==> find_text(s@, p@) == i && i + p@.len() <= s@.len(),
{
    let n = s.len();
    if p.len() > n {
        return None;
    }
    let last = n - p.len();
    let mut i: usize = 0;
    while i <= last
        invariant
            n == s@.len(),
            p@.len() > 0,
            last == s@.len() - p@.len(),
            p@.len() <= s@.len(),
            i <= last + 1,
            forall|j: int| 0 <= j < i ==> #[trigger] s@.subrange(j, j + p@.len()) != p@,
        decreases last + 1 - i,
    {
        let cand = sub_vec(s, i, i + p.len());
        if crate::text::chars_eq(&cand, p) {
            proof {
                let w = choose|w: int|
                    0 <= w <= s@.len() - p@.len() && #[trigger] s@.subrange(w, w + p@.len()) == p@
                        && forall|j: int| 0 <= j < w ==> #[trigger] s@.subrange(j, j + p@.len()) != p@;
                if w < i {
                } else if w > i {
                    assert(s@.subrange(i as int, i + p@.len()) == p@);
                }
            }
            return Some(i);
        }
        i += 1;
    }
    None
}

/// What a scanned or pasted value names: an invitation to decode, or a
/// peer address as given.
pub enum AddressSource {
    Invitation(String),
    Address(String),
}

/// The value up to its first `&`.
pub open spec fn before_ampersand(s: Seq<char>) -> Seq<char> {
    if first_index(s, '&') >= 0 {
        s.take(first_index(s, '&'))
    } else {
        s
    }
}

/// What a trimmed value names: the token after `#i=` is an invitation, the
/// one after `addr=` an address, each up to a `&`; anything else is the
/// address itself.
pub open spec fn address_source(input: Seq<char>) -> (bool, Seq<char>) {
    let t = trim(input);
    let i = find_text(t, "#i="@);
    let a = find_text(t, "addr="@);
    if i >= 0 {
        (true, before_ampersand(t.skip(i + 3)))
    } else if a >= 0 {
        (false, before_ampersand(t.skip(a + 5)))
    } else {
        (false, t)
    }
}

fn up_to_ampersand(s: &[char]) -> (r: Vec<char>)
    ensures
        r@ == before_ampersand(s@),
{
    proof {
        lemma_first_index(s@, '&');
    }
    match find_first(s, '&') {
        Some(k) => {
            assert(s@.subrange(0, k as int) =~= s@.take(k as int));
            sub_vec(s, 0, k)
        },
        None => {
            assert(s@.subrange(0, s@.len() as int) =~= s@);
            sub_vec(s, 0, s.len())
        },
    }
}

/// Where a scanned or pasted value points: `...#i=<invitation>`,
/// `...addr=<address>` or a bare address.
pub fn tailcat_address_source(input: &str) -> (r: AddressSource)
    ensures
        address_source(input@).0 ==> (r matches AddressSource::Invitation(t) && t@ == address_source(input@).1),
        !address_source(input@).0 ==> (r matches AddressSource::Address(t) && t@ == address_source(input@).1),
{
    let t = trim_chars(&chars_of(input));
    let tn = t.len();
    let inv = chars_of("#i=");
    let addr = chars_of("addr=");
    proof {
        reveal_strlit("#i=");
        reveal_strlit("addr=");
    }
    match find_text_exec(&t, &inv) {
        Some(i) => {
            let after = sub_vec(&t, i + 3, tn);
            assert(after@ =~= t@.skip(i + 3));
            AddressSource::Invitation(string_from_chars(&up_to_ampersand(&after)))
        },
        None => match find_text_exec(&t, &addr) {
            Some(a) => {
                let after = sub_vec(&t, a + 5, tn);
                assert(after@ =~= t@.skip(a + 5));
                AddressSource::Address(string_from_chars(&up_to_ampersand(&after)))
            },
            None => AddressSource::Address(string_from_chars(&t)),
        },
    }
}

} // verus!
