//! The live stream formats: a `NAME:<filename>:<size>\n` header before a
//! file body, and newline-delimited text messages.

use vstd::prelude::*;
use vstd::utf8::{decode_utf8, encode_scalar, encode_utf8, valid_utf8};
use crate::platform::{FileMetadata, ReceivedItem, StorageError, MAX_FILE_NAME_HEADER_BYTES};
use crate::protocol::filename::{
    sanitize_filename, sanitize_is_idempotent, sanitize_result, sanitized_name, too_long_message,
    FilenameError,
};
use crate::protocol::limits::{CHUNK_SIZE_BYTES, MAX_FILENAME_BYTES, MAX_TEXT_PAYLOAD_SIZE};
use crate::text::{
    chars_of, dec, decode_utf8_string, extend_from, find_last, is_digit, last_index, lemma_dec,
    lemma_last_index,
    parse_u64, parse_u64_chars, string_from_chars, sub_vec, u64_to_dec, utf8_byte_len, utf8_len,
};
use crate::transport::TransportError;

verus! {

#[derive(Debug)]
pub enum TransferError {
    Transport(TransportError),
    Storage(StorageError),
    Cancelled,
    InvalidUtf8,
    SizeMismatch { expected: u64, actual: u64 },
    UnexpectedEof,
    InvalidNameHeader(String),
    NameHeaderTooLarge,
    TextTooLarge,
    ReadOverrun { requested: usize, actual: usize },
    WriteZero,
    WriteOverrun { requested: usize, actual: usize },
}

impl TransferError {
    /// Whether the transport reported that the peer cancelled this transfer.
    /// `Cancelled` is the local cancellation flag and is not included.
    pub fn is_peer_cancelled(&self) -> (b: bool)
        ensures
            b == (self matches TransferError::Transport(e) && e is Cancelled),
    {
        match self {
            TransferError::Transport(error) => error.is_cancelled(),
            _ => false,
        }
    }
}

/// Progress of one transfer.
pub struct ProgressUpdate {
    pub transfer_id: [u8; 16],
    pub bytes_transferred: u64,
    pub total_bytes: u64,
}

/// Result of the local cancellation flag check done between stream steps.
pub fn check_cancelled(cancelled: bool) -> (r: Result<(), TransferError>)
    ensures
        cancelled ==> r matches Err(TransferError::Cancelled),
        !cancelled ==> r is Ok,
{
    if cancelled {
        Err(TransferError::Cancelled)
    } else {
        Ok(())
    }
}

/// A parsed `NAME:<filename>:<size>\n` header.
#[derive(Debug, Clone, PartialEq, Eq)]
pub struct NamedFileHeader {
    pub name: String,
    pub size: u64,
}

/// A received live file: the sender's header and the stored item.
#[derive(Debug, Clone, PartialEq, Eq)]
pub struct ReceivedNamedFile {
    pub header: NamedFileHeader,
    pub item: ReceivedItem,
}

/// `NAME:`.
pub open spec fn name_prefix() -> Seq<char> {
    seq!['N', 'A', 'M', 'E', ':']
}

/// What `parse_name_header` decides for a byte string.
pub enum NameHeaderOutcome {
    TooLarge,
    Invalid(Seq<char>),
    Parsed(Seq<char>, u64),
}

pub open spec fn strip_cr(s: Seq<u8>) -> Seq<u8> {
    if s.len() > 0 && s.last() == 13 {
        s.drop_last()
    } else {
        s
    }
}

/// The outcome for the text of one header line, after its line ending.
pub open spec fn name_line_outcome(text: Seq<char>) -> NameHeaderOutcome {
    if !(text.len() >= 5 && text.take(5) == name_prefix()) {
        NameHeaderOutcome::Invalid("missing NAME prefix"@)
    } else {
        let rest = text.skip(5);
        let colon = last_index(rest, ':');
        if colon < 0 {
            NameHeaderOutcome::Invalid("missing file size"@)
        } else {
            match parse_u64(rest.skip(colon + 1)) {
                None => NameHeaderOutcome::Invalid("invalid file size"@),
                Some(size) => match sanitize_result(rest.take(colon)) {
                    Err(len) => NameHeaderOutcome::Invalid(too_long_message(len)),
                    Ok(name) => if utf8_len(name) > MAX_FILENAME_BYTES {
                        NameHeaderOutcome::Invalid("sanitized filename is too long"@)
                    } else {
                        NameHeaderOutcome::Parsed(name, size)
                    },
                },
            }
        }
    }
}

/// What `parse_name_header` decides for the bytes `b`.
pub open spec fn name_header_outcome(b: Seq<u8>) -> NameHeaderOutcome {
    if b.len() > MAX_FILE_NAME_HEADER_BYTES {
        NameHeaderOutcome::TooLarge
    } else if b.len() == 0 || b.last() != 10 {
        NameHeaderOutcome::Invalid("missing newline"@)
    } else if !valid_utf8(strip_cr(b.drop_last())) {
        NameHeaderOutcome::Invalid("header is not UTF-8"@)
    } else {
        name_line_outcome(decode_utf8(strip_cr(b.drop_last())))
    }
}

fn invalid_header(msg: &str) -> (e: TransferError)
    ensures
        e matches TransferError::InvalidNameHeader(m) && m@ == msg@,
{
    TransferError::InvalidNameHeader(msg.to_owned())
}

/// Parses one complete live file header.  The last colon separates name and
/// size (names may contain colons); the name is sanitized before use.
pub fn parse_name_header(bytes: &[u8]) -> (res: Result<NamedFileHeader, TransferError>)
    ensures
        match name_header_outcome(bytes@) {
            NameHeaderOutcome::TooLarge => res matches Err(TransferError::NameHeaderTooLarge),
            NameHeaderOutcome::Invalid(m) => res matches Err(TransferError::InvalidNameHeader(s))
                && s@ == m,
            NameHeaderOutcome::Parsed(name, size) => res matches Ok(h) && h.name@ == name
                && h.size == size,
        },
{
    if bytes.len() > MAX_FILE_NAME_HEADER_BYTES {
        return Err(TransferError::NameHeaderTooLarge);
    }
    if bytes.len() == 0 || bytes[bytes.len() - 1] != 10 {
        return Err(invalid_header("missing newline"));
    }
    let mut end = bytes.len() - 1;
    if end > 0 && bytes[end - 1] == 13 {
        end -= 1;
    }
    let line = sub_vec(bytes, 0, end);
    assert(line@ == strip_cr(bytes@.drop_last()));
    let text = match decode_utf8_string(&line) {
        Some(t) => t,
        None => {
            return Err(invalid_header("header is not UTF-8"));
        },
    };
    let chars = chars_of(text.as_str());
    let has_prefix = chars.len() >= 5 && chars[0] == 'N' && chars[1] == 'A' && chars[2] == 'M'
        && chars[3] == 'E' && chars[4] == ':';
    proof {
        if chars@.len() >= 5 {
            if has_prefix {
                assert(chars@.take(5) =~= name_prefix());
            } else if chars@.take(5) == name_prefix() {
                assert(chars@.take(5)[0] == chars@[0]);
                assert(chars@.take(5)[1] == chars@[1]);
                assert(chars@.take(5)[2] == chars@[2]);
                assert(chars@.take(5)[3] == chars@[3]);
                assert(chars@.take(5)[4] == chars@[4]);
            }
        }
    }
    if !has_prefix {
        return Err(invalid_header("missing NAME prefix"));
    }
    let rest = sub_vec(&chars, 5, chars.len());
    assert(rest@ == chars@.skip(5));
    let colon = match find_last(&rest, ':') {
        Some(i) => i,
        None => {
            return Err(invalid_header("missing file size"));
        },
    };
    proof {
        lemma_last_index(rest@, ':');
    }
    let raw_size = sub_vec(&rest, colon + 1, rest.len());
    let size = match parse_u64_chars(&raw_size) {
        Some(n) => n,
        None => {
            return Err(invalid_header("invalid file size"));
        },
    };
    let raw_name = string_from_chars(&sub_vec(&rest, 0, colon));
    let name = match sanitize_filename(raw_name.as_str()) {
        Ok(n) => n,
        Err(error) => {
            return Err(TransferError::InvalidNameHeader(error.message()));
        },
    };
    let name_chars = chars_of(name.as_str());
    if utf8_byte_len(&name_chars) > MAX_FILENAME_BYTES {
        return Err(invalid_header("sanitized filename is too long"));
    }
    Ok(NamedFileHeader { name, size })
}

/// The header line for a file of that name and size.
pub open spec fn name_header_text(name: Seq<char>, size: u64) -> Seq<char> {
    name_prefix() + name + seq![':'] + dec(size as nat) + seq!['\n']
}

/// Encodes the live file header for `metadata`: the sanitized name and the
/// size, refused when the line exceeds the header limit.
pub fn encode_name_header(metadata: &FileMetadata) -> (res: Result<Vec<u8>, TransferError>)
    ensures
        match sanitize_result(metadata.name@) {
            Err(len) => res matches Err(TransferError::InvalidNameHeader(m)) && m@
                == too_long_message(len),
            Ok(name) => {
                let line = encode_utf8(name_header_text(name, metadata.size));
                if line.len() > MAX_FILE_NAME_HEADER_BYTES {
                    res matches Err(TransferError::NameHeaderTooLarge)
                } else {
                    res matches Ok(b) && b@ == line
                }
            },
        },
{
    let name = match sanitize_filename(metadata.name.as_str()) {
        Ok(n) => n,
        Err(error) => {
            return Err(TransferError::InvalidNameHeader(error.message()));
        },
    };
    let mut v = chars_of("NAME:");
    let name_chars = chars_of(name.as_str());
    extend_from(&mut v, &name_chars);
    v.push(':');
    let d = u64_to_dec(metadata.size);
    extend_from(&mut v, &d);
    v.push('\n');
    proof {
        reveal_strlit("NAME:");
    }
    assert(v@ =~= name_header_text(name@, metadata.size));
    let header = string_from_chars(&v);
    let b: &[u8] = header.as_str().as_bytes();
    if b.len() > MAX_FILE_NAME_HEADER_BYTES {
        return Err(TransferError::NameHeaderTooLarge);
    }
    Ok(sub_vec(b, 0, b.len()))
}

// ---------------------------------------------------------------------------
// Newline-delimited text messages.
// ---------------------------------------------------------------------------

/// Index of the first `\n`, or -1.
pub open spec fn first_newline(s: Seq<u8>) -> int
    decreases s.len(),
{
    if s.len() == 0 {
        -1
    } else if s[0] == 10 {
        0
    } else if first_newline(s.drop_first()) < 0 {
        -1
    } else {
        first_newline(s.drop_first()) + 1
    }
}

/// Why the decoder refused its input.
pub enum DecodeFault {
    TooLarge,
    BadUtf8,
}

/// The messages completed by feeding `input` to a decoder holding the
/// unterminated bytes `pending`, and the bytes it holds afterwards.  A line
/// over the text limit or not in UTF-8 is refused and empties the decoder.
pub open spec fn push_result(pending: Seq<u8>, input: Seq<u8>) -> (Result<Seq<Seq<char>>, DecodeFault>, Seq<u8>)
    decreases input.len(),
{
    if input.len() == 0 {
        (Ok(Seq::empty()), pending)
    } else {
        let k = first_newline(input);
        let content = if k < 0 {
            input
        } else {
            input.take(k)
        };
        if pending.len() + content.len() > MAX_TEXT_PAYLOAD_SIZE {
            (Err(DecodeFault::TooLarge), Seq::empty())
        } else if k < 0 {
            (Ok(Seq::empty()), pending + content)
        } else {
            let line = strip_cr(pending + content);
            if !valid_utf8(line) {
                (Err(DecodeFault::BadUtf8), Seq::empty())
            } else {
                proof {
                    lemma_first_newline(input);
                }
                let (r, p) = push_result(Seq::empty(), input.skip(k + 1));
                (
                    match r {
                        Ok(m) => Ok(seq![decode_utf8(line)] + m),
                        Err(e) => Err(e),
                    },
                    p,
                )
            }
        }
    }
}

/// The final unterminated message of a closed stream, and the bytes left.
pub open spec fn finish_result(pending: Seq<u8>) -> (Result<Seq<Seq<char>>, DecodeFault>, Seq<u8>) {
    if pending.len() == 0 {
        (Ok(Seq::empty()), pending)
    } else if pending.len() > MAX_TEXT_PAYLOAD_SIZE {
        (Err(DecodeFault::TooLarge), pending)
    } else if !valid_utf8(strip_cr(pending)) {
        (Err(DecodeFault::BadUtf8), Seq::empty())
    } else {
        (Ok(seq![decode_utf8(strip_cr(pending))]), Seq::empty())
    }
}

/// Views of a list of strings.
pub open spec fn string_views(v: Seq<String>) -> Seq<Seq<char>> {
    v.map_values(|s: String| s@)
}

/// What a decoder call returns for the spec outcome `r`.
pub open spec fn decoded_as(res: Result<Vec<String>, TransferError>, r: Result<Seq<Seq<char>>, DecodeFault>) -> bool {
    match r {
        Ok(m) => res matches Ok(v) && string_views(v@) == m,
        Err(DecodeFault::TooLarge) => res matches Err(TransferError::TextTooLarge),
        Err(DecodeFault::BadUtf8) => res matches Err(TransferError::InvalidUtf8),
    }
}

/// Decoder for the persistent text stream: feed it whatever chunks the
/// transport returns; complete lines come out at once and the last
/// unterminated line comes out of `finish`.
#[derive(Debug, Default)]
pub struct TextMessageDecoder {
    pending: Vec<u8>,
}

pub proof fn lemma_first_newline(s: Seq<u8>)
    ensures
        -1 <= first_newline(s) < s.len(),
        first_newline(s) >= 0 ==> s[first_newline(s)] == 10,
        forall|i: int| 0 <= i < s.len() && (first_newline(s) < 0 || i < first_newline(s)) ==> s[i] != 10,
    decreases s.len(),
{
    if s.len() > 0 && s[0] != 10 {
        lemma_first_newline(s.drop_first());
        assert forall|i: int| 0 <= i < s.len() && (first_newline(s) < 0 || i < first_newline(s)) implies s[i] != 10 by {
            if i > 0 {
                assert(s[i] == s.drop_first()[i - 1]);
            }
        }
    }
}

/// `first_newline` of a suffix, from the first newline at or after `pos`.
proof fn lemma_first_newline_at(s: Seq<u8>, pos: int, j: int)
    requires
        0 <= pos <= j <= s.len(),
        forall|i: int| pos <= i < j ==> s[i] != 10,
        j == s.len() || s[j] == 10,
    ensures
        first_newline(s.skip(pos)) == (if j == s.len() { -1 } else { j - pos }),
    decreases j - pos,
{
    let t = s.skip(pos);
    if pos < j {
        assert(t[0] == s[pos]);
        assert(t.drop_first() =~= s.skip(pos + 1));
        lemma_first_newline_at(s, pos + 1, j);
    } else if j < s.len() {
        assert(t[0] == s[j]);
    }
}

impl TextMessageDecoder {
    /// The bytes of the unterminated line held so far.
    pub closed spec fn pending(&self) -> Seq<u8> {
        self.pending@
    }

    pub fn new() -> (d: Self)
        ensures
            d.pending() == Seq::<u8>::empty(),
    {
        TextMessageDecoder { pending: Vec::new() }
    }

    fn take_line(&mut self) -> (res: Result<String, TransferError>)
        ensures
            final(self).pending() == Seq::<u8>::empty(),
            valid_utf8(strip_cr(old(self).pending())) ==> (res matches Ok(s) && s@ == decode_utf8(
                strip_cr(old(self).pending()),
            )),
            !valid_utf8(strip_cr(old(self).pending())) ==> res matches Err(TransferError::InvalidUtf8),
    {
        let mut end = self.pending.len();
        if end > 0 && self.pending[end - 1] == 13 {
            end -= 1;
        }
        let line = sub_vec(&self.pending, 0, end);
        assert(line@ =~= strip_cr(self.pending@));
        self.pending = Vec::new();
        match decode_utf8_string(&line) {
            Some(s) => Ok(s),
            None => Err(TransferError::InvalidUtf8),
        }
    }

    /// Feeds one chunk; returns the messages it completes.
    pub fn push(&mut self, bytes: &[u8]) -> (res: Result<Vec<String>, TransferError>)
        ensures
            decoded_as(res, push_result(old(self).pending(), bytes@).0),
            final(self).pending() == push_result(old(self).pending(), bytes@).1,
    {
        let ghost p0 = self.pending@;
        let mut messages: Vec<String> = Vec::new();
        let mut pos: usize = 0;
        assert(bytes@.skip(0) =~= bytes@);
        while pos < bytes.len()
            invariant
                pos <= bytes@.len(),
                p0 == old(self).pending(),
                ({
                    let (r0, q0) = push_result(p0, bytes@);
                    let (r, q) = push_result(self.pending@, bytes@.skip(pos as int));
                    &&& q0 == q
                    &&& r0 == match r {
                        Ok(m) => Ok(string_views(messages@) + m),
                        Err(e) => Err::<Seq<Seq<char>>, DecodeFault>(e),
                    }
                }),
            decreases bytes.len() - pos,
        {
            let mut j = pos;
            while j < bytes.len() && bytes[j] != 10
                invariant
                    pos <= j <= bytes@.len(),
                    forall|i: int| pos <= i < j ==> bytes@[i] != 10,
                decreases bytes.len() - j,
            {
                j += 1;
            }
            proof {
                lemma_first_newline_at(bytes@, pos as int, j as int);
                let t = bytes@.skip(pos as int);
                if j < bytes.len() {
                    assert(t.take(j - pos) =~= bytes@.subrange(pos as int, j as int));
                    assert(t.skip(j - pos + 1) =~= bytes@.skip(j + 1));
                } else {
                    assert(t =~= bytes@.subrange(pos as int, j as int));
                }
            }
            let content_len = j - pos;
            if self.pending.len() > MAX_TEXT_PAYLOAD_SIZE as usize || content_len
                > MAX_TEXT_PAYLOAD_SIZE as usize - self.pending.len() {
                proof {
                    let t = bytes@.skip(pos as int);
                    assert(t.len() > 0);
                    assert(push_result(self.pending@, t).1 == Seq::<u8>::empty());
                    assert(push_result(self.pending@, t).0 == Err::<Seq<Seq<char>>, DecodeFault>(DecodeFault::TooLarge));
                    assert(push_result(p0, bytes@).0 == Err::<Seq<Seq<char>>, DecodeFault>(DecodeFault::TooLarge));
                    assert(push_result(p0, bytes@).1 == Seq::<u8>::empty());
                }
                self.pending = Vec::new();
                assert(self.pending@ == Seq::<u8>::empty());
                return Err(TransferError::TextTooLarge);
            }
            let ghost before = self.pending@;
            extend_from(&mut self.pending, &bytes[pos..j]);
            assert(bytes@.subrange(pos as int, j as int) == bytes@.subrange(pos as int, j as int));
            if j < bytes.len() {
                let ghost line = self.pending@;
                match self.take_line() {
                    Ok(s) => {
                        let ghost old_msgs = string_views(messages@);
                        messages.push(s);
                        assert(string_views(messages@) =~= old_msgs.push(s@));
                        proof {
                            let (r, q) = push_result(Seq::empty(), bytes@.skip(j + 1));
                            match r {
                                Ok(m) => {
                                    assert(old_msgs + (seq![s@] + m) =~= old_msgs.push(s@) + m);
                                },
                                Err(e) => {},
                            }
                        }
                    },
                    Err(e) => {
                        proof {
                            let t = bytes@.skip(pos as int);
                            assert(t.len() > 0);
                            assert(line == before + t.take(j - pos));
                            assert(push_result(before, t).0 == Err::<Seq<Seq<char>>, DecodeFault>(DecodeFault::BadUtf8));
                        }
                        return Err(e);
                    },
                }
                pos = j + 1;
            } else {
                pos = j;
                assert(bytes@.skip(pos as int) =~= Seq::<u8>::empty());
            }
        }
        Ok(messages)
    }

    /// Emits the last unterminated message of a closed stream.
    pub fn finish(&mut self) -> (res: Result<Vec<String>, TransferError>)
        ensures
            decoded_as(res, finish_result(old(self).pending()).0),
            final(self).pending() == finish_result(old(self).pending()).1,
    {
        if self.pending.len() == 0 {
            let v: Vec<String> = Vec::new();
            assert(string_views(v@) =~= Seq::<Seq<char>>::empty());
            return Ok(v);
        }
        if self.pending.len() > MAX_TEXT_PAYLOAD_SIZE as usize {
            return Err(TransferError::TextTooLarge);
        }
        let s = self.take_line()?;
        let mut v: Vec<String> = Vec::new();
        v.push(s);
        assert(string_views(v@) =~= seq![s@]);
        Ok(v)
    }
}

proof fn lemma_first_newline_concat(a: Seq<u8>, b: Seq<u8>)
    ensures
        first_newline(a + b) == (if first_newline(a) >= 0 {
            first_newline(a)
        } else if first_newline(b) >= 0 {
            a.len() + first_newline(b)
        } else {
            -1
        }),
    decreases a.len(),
{
    if a.len() == 0 {
        assert(a + b =~= b);
    } else {
        assert((a + b)[0] == a[0]);
        assert((a + b).drop_first() =~= a.drop_first() + b);
        lemma_first_newline_concat(a.drop_first(), b);
    }
}

/// Feeding a decoder two chunks one after the other completes the same
/// messages, and leaves the same bytes, as feeding it their concatenation.
pub proof fn push_chunks_compose(p: Seq<u8>, a: Seq<u8>, b: Seq<u8>)
    requires
        push_result(p, a).0 is Ok,
        push_result(push_result(p, a).1, b).0 is Ok,
    ensures
        push_result(p, a + b) == (
            Ok::<Seq<Seq<char>>, DecodeFault>(push_result(p, a).0->Ok_0 + push_result(push_result(p, a).1, b).0->Ok_0),
            push_result(push_result(p, a).1, b).1,
        ),
    decreases a.len(),
{
    let (r1, p1) = push_result(p, a);
    let (r2, p2) = push_result(p1, b);
    let m1 = r1->Ok_0;
    let m2 = r2->Ok_0;
    if a.len() == 0 {
        assert(a + b =~= b);
        assert(m1 =~= Seq::<Seq<char>>::empty());
        assert(m1 + m2 =~= m2);
    } else {
        lemma_first_newline(a);
        lemma_first_newline_concat(a, b);
        let k = first_newline(a);
        if k < 0 {
            assert(p1 == p + a);
            assert(m1 =~= Seq::<Seq<char>>::empty());
            assert(m1 + m2 =~= m2);
            if b.len() == 0 {
                assert(a + b =~= a);
            } else {
                lemma_first_newline(b);
                let kb = first_newline(b);
                let cb = if kb < 0 { b } else { b.take(kb) };
                let cab = if kb < 0 { a + b } else { (a + b).take(a.len() + kb) };
                assert(cab =~= a + cb);
                assert(p + cab =~= p1 + cb);
                if kb >= 0 {
                    assert((a + b).skip(a.len() + kb + 1) =~= b.skip(kb + 1));
                }
            }
        } else {
            assert((a + b).take(k) =~= a.take(k));
            assert((a + b).skip(k + 1) =~= a.skip(k + 1) + b);
            push_chunks_compose(Seq::empty(), a.skip(k + 1), b);
            let (r3, p3) = push_result(Seq::empty(), a.skip(k + 1));
            let line = strip_cr(p + a.take(k));
            assert(m1 == seq![decode_utf8(line)] + r3->Ok_0);
            assert(seq![decode_utf8(line)] + (r3->Ok_0 + m2) =~= m1 + m2);
        }
    }
}

// ---------------------------------------------------------------------------
// Steps of the stream loops.  The adapter performs each read or write and
// hands the count it got to these checks.
// ---------------------------------------------------------------------------

/// A write reported `written` bytes of the `remaining` it was given: none
/// means the stream is stuck, more than given is a broken adapter.
pub fn check_write(remaining: usize, written: usize) -> (r: Result<usize, TransferError>)
    ensures
        written == 0 ==> r matches Err(TransferError::WriteZero),
        written > remaining && written != 0 ==> (r matches Err(TransferError::WriteOverrun { requested, actual })
            && requested == remaining && actual == written),
        0 < written <= remaining ==> r == Ok::<usize, TransferError>(written),
{
    if written == 0 {
        return Err(TransferError::WriteZero);
    }
    if written > remaining {
        return Err(TransferError::WriteOverrun { requested: remaining, actual: written });
    }
    Ok(written)
}

/// A read reported `count` bytes into a buffer of `requested`.
pub fn check_read(requested: usize, count: usize) -> (r: Result<usize, TransferError>)
    ensures
        count > requested ==> (r matches Err(TransferError::ReadOverrun { requested: q, actual })
            && q == requested && actual == count),
        count <= requested ==> r == Ok::<usize, TransferError>(count),
{
    if count > requested {
        return Err(TransferError::ReadOverrun { requested, actual: count });
    }
    Ok(count)
}

/// A body read reported `count` bytes of the `needed` ones: none means the
/// peer ended early.
pub fn check_body_read(needed: usize, count: usize) -> (r: Result<usize, TransferError>)
    ensures
        count == 0 ==> r matches Err(TransferError::UnexpectedEof),
        count > needed && count != 0 ==> (r matches Err(TransferError::ReadOverrun { requested, actual })
            && requested == needed && actual == count),
        0 < count <= needed ==> r == Ok::<usize, TransferError>(count),
{
    if count == 0 {
        return Err(TransferError::UnexpectedEof);
    }
    if count > needed {
        return Err(TransferError::ReadOverrun { requested: needed, actual: count });
    }
    Ok(count)
}

/// How many bytes to read next: what is left of `size`, at most a buffer.
pub fn next_chunk_len(size: u64, done: u64, buffer_len: usize) -> (n: usize)
    requires
        done <= size,
    ensures
        n == if size - done < buffer_len {
            (size - done) as int
        } else {
            buffer_len as int
        },
{
    let left = size - done;
    if left < buffer_len as u64 {
        left as usize
    } else {
        buffer_len
    }
}

/// A header's size against the size the control channel announced.
pub fn check_expected_size(expected: Option<u64>, actual: u64) -> (r: Result<(), TransferError>)
    ensures
        (expected matches Some(e) && e != actual) ==> (r matches Err(TransferError::SizeMismatch { expected: x, actual: a })
            && x == expected->0 && a == actual),
        !(expected matches Some(e) && e != actual) ==> r is Ok,
{
    if let Some(e) = expected {
        if e != actual {
            return Err(TransferError::SizeMismatch { expected: e, actual });
        }
    }
    Ok(())
}

/// After the declared body arrived, bytes still buffered mean the sender
/// sent more than it declared.
pub fn check_no_excess(size: u64, pending: usize) -> (r: Result<(), TransferError>)
    ensures
        pending != 0 ==> (r matches Err(TransferError::SizeMismatch { expected, actual })
            && expected == size && actual == if size + pending > u64::MAX {
            u64::MAX as int
        } else {
            size + pending
        }),
        pending == 0 ==> r is Ok,
{
    if pending != 0 {
        return Err(TransferError::SizeMismatch { expected: size, actual: size.saturating_add(pending as u64) });
    }
    Ok(())
}

/// A live text message is at most the text payload limit.
pub fn check_text_len(text: &str) -> (r: Result<(), TransferError>)
    ensures
        utf8_len(text@) > MAX_TEXT_PAYLOAD_SIZE ==> r matches Err(TransferError::TextTooLarge),
        utf8_len(text@) <= MAX_TEXT_PAYLOAD_SIZE ==> r is Ok,
{
    let b: &[u8] = text.as_bytes();
    if b.len() as u64 > MAX_TEXT_PAYLOAD_SIZE {
        return Err(TransferError::TextTooLarge);
    }
    Ok(())
}

/// What reading a live file header has found so far.
pub enum HeaderProgress {
    /// No line end yet; read more.
    Incomplete,
    /// The header line ended: its parse, and the body bytes that came with it.
    Complete(Result<NamedFileHeader, TransferError>, Vec<u8>),
    /// The stream failed the header.
    Failed(TransferError),
}

/// Collects a live file header from the chunks a stream delivers.
pub struct NameHeaderReader {
    header: Vec<u8>,
}

fn find_newline(b: &[u8]) -> (r: Option<usize>)
    ensures
        r is None ==> forall|i: int| 0 <= i < b@.len() ==> b@[i] != 10,
        r matches Some(p) ==> p < b@.len() && b@[p as int] == 10 && forall|j: int| 0 <= j < p ==> b@[j] != 10,
{
    let mut i: usize = 0;
    while i < b.len()
        invariant
            i <= b@.len(),
            forall|j: int| 0 <= j < i ==> b@[j] != 10,
        decreases b.len() - i,
    {
        if b[i] == 10 {
            return Some(i);
        }
        i += 1;
    }
    None
}

impl NameHeaderReader {
    pub closed spec fn collected(&self) -> Seq<u8> {
        self.header@
    }

    pub fn new() -> (r: Self)
        ensures
            r.collected().len() == 0,
    {
        NameHeaderReader { header: Vec::new() }
    }

    /// Takes the next chunk the stream delivered (`chunk` empty at end of
    /// stream).
    pub fn push(&mut self, chunk: &[u8]) -> (r: HeaderProgress)
        ensures
            chunk@.len() == 0 ==> r matches HeaderProgress::Failed(TransferError::UnexpectedEof),
            chunk@.len() > 0 && (forall|i: int| 0 <= i < chunk@.len() ==> chunk@[i] != 10) ==> {
                &&& final(self).collected() == old(self).collected() + chunk@
                &&& (final(self).collected().len() >= MAX_FILE_NAME_HEADER_BYTES ==> r matches HeaderProgress::Failed(
                    TransferError::NameHeaderTooLarge,
                ))
                &&& final(self).collected().len() < MAX_FILE_NAME_HEADER_BYTES ==> r is Incomplete
            },
            (exists|i: int| 0 <= i < chunk@.len() && chunk@[i] == 10) ==> exists|p: int|
                {
                    &&& 0 <= p < chunk@.len()
                    &&& chunk@[p] == 10
                    &&& forall|j: int| 0 <= j < p ==> chunk@[j] != 10
                    &&& final(self).collected() == old(self).collected() + chunk@.take(p + 1)
                    &&& r matches HeaderProgress::Complete(parsed, rest)
                    &&& rest@ == chunk@.skip(p + 1)
                    &&& match name_header_outcome(final(self).collected()) {
                        NameHeaderOutcome::TooLarge => parsed matches Err(TransferError::NameHeaderTooLarge),
                        NameHeaderOutcome::Invalid(m) => parsed matches Err(TransferError::InvalidNameHeader(s))
                            && s@ == m,
                        NameHeaderOutcome::Parsed(name, size) => parsed matches Ok(h) && h.name@ == name
                            && h.size == size,
                    }
                },
    {
        if chunk.len() == 0 {
            return HeaderProgress::Failed(TransferError::UnexpectedEof);
        }
        match find_newline(chunk) {
            Some(p) => {
                extend_from(&mut self.header, &sub_vec(chunk, 0, p + 1));
                let rest = sub_vec(chunk, p + 1, chunk.len());
                assert(chunk@.subrange(0, p + 1) =~= chunk@.take(p + 1));
                assert(chunk@.subrange(p + 1, chunk@.len() as int) =~= chunk@.skip(p + 1));
                HeaderProgress::Complete(parse_name_header(&self.header), rest)
            },
            None => {
                extend_from(&mut self.header, chunk);
                if self.header.len() >= MAX_FILE_NAME_HEADER_BYTES {
                    HeaderProgress::Failed(TransferError::NameHeaderTooLarge)
                } else {
                    HeaderProgress::Incomplete
                }
            },
        }
    }
}

proof fn lemma_encode_utf8_concat(a: Seq<char>, b: Seq<char>)
    ensures
        encode_utf8(a + b) == encode_utf8(a) + encode_utf8(b),
    decreases a.len(),
{
    if a.len() == 0 {
        assert(a + b =~= b);
        assert(encode_utf8(a) + encode_utf8(b) =~= encode_utf8(b));
    } else {
        lemma_encode_utf8_concat(a.drop_first(), b);
        assert((a + b).drop_first() =~= a.drop_first() + b);
        assert((a + b)[0] == a[0]);
        assert(encode_utf8(a + b) =~= encode_utf8(a) + encode_utf8(b));
    }
}

proof fn lemma_encode_ascii_char(c: char)
    requires
        (c as u32) < 128,
    ensures
        encode_utf8(seq![c]) == seq![c as u8],
{
    let u = c as u32;
    assert(seq![c].drop_first() =~= Seq::<char>::empty());
    assert(encode_utf8(Seq::<char>::empty()) =~= Seq::<u8>::empty());
    assert(encode_utf8(seq![c]) =~= encode_scalar(u));
    assert((u & 0x7F) == u) by (bit_vector)
        requires
            u < 128,
    ;
    assert((u & 0x7F) as u8 == c as u8);
    assert(encode_scalar(u) =~= seq![c as u8]);
}

/// A live file header written for a name that sanitizes is read back as
/// the sanitized name and the size, whenever it fits the header limit.
pub proof fn name_header_round_trip(name: Seq<char>, size: u64)
    requires
        sanitize_result(name) is Ok,
        encode_utf8(name_header_text(sanitize_result(name)->Ok_0, size)).len()
            <= MAX_FILE_NAME_HEADER_BYTES,
    ensures
        name_header_outcome(encode_utf8(name_header_text(sanitize_result(name)->Ok_0, size)))
            == NameHeaderOutcome::Parsed(sanitize_result(name)->Ok_0, size),
{
    broadcast use vstd::utf8::encode_utf8_valid_utf8, vstd::utf8::encode_utf8_decode_utf8;

    let n = sanitize_result(name)->Ok_0;
    let d = dec(size as nat);
    lemma_dec(size as nat);
    let line_text = name_prefix() + n + seq![':'] + d;
    let text = name_header_text(n, size);
    assert(text =~= line_text + seq!['\n']);
    lemma_encode_utf8_concat(line_text, seq!['\n']);
    lemma_encode_ascii_char('\n');
    let bytes = encode_utf8(text);
    let body = encode_utf8(line_text);
    assert(bytes =~= body.push(10u8));
    assert(bytes.drop_last() =~= body);
    // The line ends in a digit, so no carriage return is dropped.
    let last = line_text.last();
    assert(last == d.last());
    assert(is_digit(d[d.len() - 1]));
    assert(line_text =~= line_text.drop_last() + seq![last]);
    lemma_encode_utf8_concat(line_text.drop_last(), seq![last]);
    lemma_encode_ascii_char(last);
    assert(body.last() == last as u8);
    assert(strip_cr(body) == body);
    assert(decode_utf8(body) == line_text);
    // The last colon is the one after the name.
    assert(line_text.take(5) =~= name_prefix());
    let rest = line_text.skip(5);
    assert(rest =~= n + seq![':'] + d);
    lemma_last_index(rest, ':');
    let colon = last_index(rest, ':');
    assert(rest[n.len() as int] == ':');
    assert forall|k: int| n.len() < k < rest.len() implies rest[k] != ':' by {
        assert(rest[k] == d[k - n.len() - 1]);
        assert(is_digit(d[k - n.len() - 1]));
    }
    assert(colon == n.len());
    assert(rest.skip(colon + 1) =~= d);
    assert(rest.take(colon) =~= n);
    assert(parse_u64(d) == Some(size));
    // The name is already sanitized, so it is kept.
    sanitize_is_idempotent(name);
    assert(n == sanitized_name(name));
    assert(sanitize_result(n) == Ok::<Seq<char>, nat>(n));
}

// ---------------------------------------------------------------------------
// Receiving one live file, step by step.  The sink is prepared only for an
// accepted header, committed only after exactly the declared bytes and then
// the sender's end of stream arrived, and aborted on every failure after it
// exists.
// ---------------------------------------------------------------------------

/// Where receiving one live file stands.
#[derive(Debug, Clone, Copy, PartialEq, Eq, Structural)]
pub enum ReceivePhase {
    /// Reading the `NAME:` header.
    Header,
    /// The platform prepares the sink for the accepted header.
    Preparing,
    /// Reading the body into the sink.
    Body,
    /// The body arrived; checking nothing follows it.
    Checking,
    /// Nothing was buffered past the body; waiting for the sender's end of
    /// stream.
    AwaitingEof,
    /// The sink stores the file.
    Committing,
    Received,
    Failed,
}

/// The decisions' view of one file being received.
#[derive(Debug, Clone, Copy, PartialEq, Eq, Structural)]
pub struct ReceiveState {
    pub phase: ReceivePhase,
    /// The size the control channel announced, if any.
    pub expected_size: Option<u64>,
    /// The size the header declared.
    pub size: u64,
    /// Body bytes written to the sink so far.
    pub received: u64,
    /// Bytes read and handed to the sink, not yet confirmed written.
    pub in_flight: usize,
}

/// What the outside work reports back.  `cancelled` is the transfer's
/// cancellation flag, read when the step ended.
#[derive(Debug, Clone, Copy, PartialEq, Eq, Structural)]
pub enum ReceiveEvent {
    /// A header declaring `size` bytes was read and accepted.
    HeaderRead { size: u64, cancelled: bool },
    /// The sink exists.
    SinkReady { cancelled: bool },
    /// A body read returned `count` bytes.
    Read { count: usize },
    /// The bytes of the last read are in the sink.
    Written { cancelled: bool },
    /// After the body, `pending` bytes are buffered past it.
    Drained { pending: usize, cancelled: bool },
    /// The read after the body returned `count` bytes; none is the
    /// sender's end of stream.
    EndRead { count: usize, cancelled: bool },
    /// The sink stored the file.
    Committed,
    /// The step failed with an error of its own (the stream, the header,
    /// the platform's storage).
    Failed,
}

/// Why receiving fails.
#[derive(Debug, Clone, Copy, PartialEq, Eq, Structural)]
pub enum ReceiveFailure {
    Cancelled,
    UnexpectedEof,
    ReadOverrun { requested: usize, actual: usize },
    SizeMismatch { expected: u64, actual: u64 },
    /// The error the failed step reported.
    Reported,
}

/// What receiving does next.
#[derive(Debug, Clone, Copy, PartialEq, Eq, Structural)]
pub enum ReceiveAction {
    /// Ask the platform for a sink for the accepted header.
    PrepareSink,
    /// Read at most `len` body bytes.
    ReadBody { len: usize },
    /// Write the `count` bytes just read to the sink, then report progress.
    Write { count: usize },
    /// Report how many bytes are buffered past the body.
    CheckExcess,
    /// Read once more: only the sender's end of stream may follow the body.
    ReadEnd,
    Commit,
    /// The stored item is the result.
    Deliver,
    /// Return the error; no sink exists, or the failed commit cleaned up.
    Fail { failure: ReceiveFailure },
    /// Abort the prepared sink, then return the error.
    Abort { failure: ReceiveFailure },
    Nothing,
}

impl ReceiveState {
    /// Receiving starts with the header; `expected_size` is the size the
    /// control channel announced, if any.
    pub fn new(expected_size: Option<u64>) -> (s: Self)
        ensures
            s == (ReceiveState { phase: ReceivePhase::Header, expected_size, size: 0, received: 0, in_flight: 0 }),
            receive_wf(s),
    {
        ReceiveState { phase: ReceivePhase::Header, expected_size, size: 0, received: 0, in_flight: 0 }
    }
}

/// The body bytes to read next: what is left, at most a chunk.
pub open spec fn body_needed(s: ReceiveState) -> usize {
    if s.received >= s.size {
        0
    } else if s.size - s.received < CHUNK_SIZE_BYTES {
        (s.size - s.received) as usize
    } else {
        CHUNK_SIZE_BYTES
    }
}

/// Goes on with the body, or checks its end once every byte arrived.
pub open spec fn continue_body(s: ReceiveState, cancelled: bool) -> (ReceiveState, ReceiveAction) {
    let failed = ReceiveState { phase: ReceivePhase::Failed, ..s };
    if cancelled {
        (failed, ReceiveAction::Abort { failure: ReceiveFailure::Cancelled })
    } else if s.received < s.size {
        (ReceiveState { phase: ReceivePhase::Body, ..s }, ReceiveAction::ReadBody { len: body_needed(s) })
    } else {
        (ReceiveState { phase: ReceivePhase::Checking, ..s }, ReceiveAction::CheckExcess)
    }
}

/// The next state of a file being received and what it does, for each
/// event.  A received or failed file stays as it is.
pub open spec fn receive_next(s: ReceiveState, e: ReceiveEvent) -> (ReceiveState, ReceiveAction) {
    let failed = ReceiveState { phase: ReceivePhase::Failed, ..s };
    let unchanged = (s, ReceiveAction::Nothing);
    match s.phase {
        ReceivePhase::Received | ReceivePhase::Failed => unchanged,
        ReceivePhase::Header => match e {
            ReceiveEvent::HeaderRead { size, cancelled } => if s.expected_size is Some && s.expected_size->0
                != size {
                (failed, ReceiveAction::Fail {
                    failure: ReceiveFailure::SizeMismatch { expected: s.expected_size->0, actual: size },
                })
            } else if cancelled {
                (failed, ReceiveAction::Fail { failure: ReceiveFailure::Cancelled })
            } else {
                (ReceiveState { phase: ReceivePhase::Preparing, size, ..s }, ReceiveAction::PrepareSink)
            },
            ReceiveEvent::Failed => (failed, ReceiveAction::Fail { failure: ReceiveFailure::Reported }),
            _ => unchanged,
        },
        ReceivePhase::Preparing => match e {
            ReceiveEvent::SinkReady { cancelled } => continue_body(s, cancelled),
            ReceiveEvent::Failed => (failed, ReceiveAction::Fail { failure: ReceiveFailure::Reported }),
            _ => unchanged,
        },
        ReceivePhase::Body => match e {
            ReceiveEvent::Read { count } => if count == 0 {
                (failed, ReceiveAction::Abort { failure: ReceiveFailure::UnexpectedEof })
            } else if count > body_needed(s) {
                (failed, ReceiveAction::Abort {
                    failure: ReceiveFailure::ReadOverrun { requested: body_needed(s), actual: count },
                })
            } else {
                (ReceiveState { in_flight: count, ..s }, ReceiveAction::Write { count })
            },
            ReceiveEvent::Written { cancelled } => continue_body(
                ReceiveState {
                    received: if s.received + s.in_flight <= s.size {
                        (s.received + s.in_flight) as u64
                    } else {
                        s.size
                    },
                    in_flight: 0,
                    ..s
                },
                cancelled,
            ),
            ReceiveEvent::Failed => (failed, ReceiveAction::Abort { failure: ReceiveFailure::Reported }),
            _ => unchanged,
        },
        ReceivePhase::Checking => match e {
            ReceiveEvent::Drained { pending, cancelled } => if pending != 0 {
                (failed, ReceiveAction::Abort {
                    failure: ReceiveFailure::SizeMismatch {
                        expected: s.size,
                        actual: if s.size + pending <= u64::MAX {
                            (s.size + pending) as u64
                        } else {
                            u64::MAX
                        },
                    },
                })
            } else if cancelled {
                (failed, ReceiveAction::Abort { failure: ReceiveFailure::Cancelled })
            } else {
                (ReceiveState { phase: ReceivePhase::AwaitingEof, ..s }, ReceiveAction::ReadEnd)
            },
            ReceiveEvent::Failed => (failed, ReceiveAction::Abort { failure: ReceiveFailure::Reported }),
            _ => unchanged,
        },
        ReceivePhase::AwaitingEof => match e {
            ReceiveEvent::EndRead { count, cancelled } => if count != 0 {
                (failed, ReceiveAction::Abort {
                    failure: ReceiveFailure::SizeMismatch {
                        expected: s.size,
                        actual: if s.size + count <= u64::MAX {
                            (s.size + count) as u64
                        } else {
                            u64::MAX
                        },
                    },
                })
            } else if cancelled {
                (failed, ReceiveAction::Abort { failure: ReceiveFailure::Cancelled })
            } else {
                (ReceiveState { phase: ReceivePhase::Committing, ..s }, ReceiveAction::Commit)
            },
            ReceiveEvent::Failed => (failed, ReceiveAction::Abort { failure: ReceiveFailure::Reported }),
            _ => unchanged,
        },
        ReceivePhase::Committing => match e {
            ReceiveEvent::Committed => (ReceiveState { phase: ReceivePhase::Received, ..s }, ReceiveAction::Deliver),
            ReceiveEvent::Failed => (failed, ReceiveAction::Fail { failure: ReceiveFailure::Reported }),
            _ => unchanged,
        },
    }
}

fn body_needed_len(s: ReceiveState) -> (n: usize)
    ensures
        n == body_needed(s),
{
    if s.received >= s.size {
        0
    } else if s.size - s.received < CHUNK_SIZE_BYTES as u64 {
        (s.size - s.received) as usize
    } else {
        CHUNK_SIZE_BYTES
    }
}

fn continue_body_step(s: ReceiveState, cancelled: bool) -> (r: (ReceiveState, ReceiveAction))
    ensures
        r == continue_body(s, cancelled),
{
    if cancelled {
        (ReceiveState { phase: ReceivePhase::Failed, ..s }, ReceiveAction::Abort { failure: ReceiveFailure::Cancelled })
    } else if s.received < s.size {
        (ReceiveState { phase: ReceivePhase::Body, ..s }, ReceiveAction::ReadBody { len: body_needed_len(s) })
    } else {
        (ReceiveState { phase: ReceivePhase::Checking, ..s }, ReceiveAction::CheckExcess)
    }
}

/// One decision while a live file is received: the outside work reports
/// `event`, and receiving moves on and says what to do next.
pub fn receive_step(state: ReceiveState, event: ReceiveEvent) -> (r: (ReceiveState, ReceiveAction))
    ensures
        r == receive_next(state, event),
{
    let failed = ReceiveState { phase: ReceivePhase::Failed, ..state };
    let unchanged = (state, ReceiveAction::Nothing);
    match state.phase {
        ReceivePhase::Received | ReceivePhase::Failed => unchanged,
        ReceivePhase::Header => match event {
            ReceiveEvent::HeaderRead { size, cancelled } => {
                if let Some(x) = state.expected_size {
                    if x != size {
                        return (failed, ReceiveAction::Fail {
                            failure: ReceiveFailure::SizeMismatch { expected: x, actual: size },
                        });
                    }
                }
                if cancelled {
                    (failed, ReceiveAction::Fail { failure: ReceiveFailure::Cancelled })
                } else {
                    (ReceiveState { phase: ReceivePhase::Preparing, size, ..state }, ReceiveAction::PrepareSink)
                }
            },
            ReceiveEvent::Failed => (failed, ReceiveAction::Fail { failure: ReceiveFailure::Reported }),
            _ => unchanged,
        },
        ReceivePhase::Preparing => match event {
            ReceiveEvent::SinkReady { cancelled } => continue_body_step(state, cancelled),
            ReceiveEvent::Failed => (failed, ReceiveAction::Fail { failure: ReceiveFailure::Reported }),
            _ => unchanged,
        },
        ReceivePhase::Body => match event {
            ReceiveEvent::Read { count } => {
                let needed = body_needed_len(state);
                if count == 0 {
                    (failed, ReceiveAction::Abort { failure: ReceiveFailure::UnexpectedEof })
                } else if count > needed {
                    (failed, ReceiveAction::Abort {
                        failure: ReceiveFailure::ReadOverrun { requested: needed, actual: count },
                    })
                } else {
                    (ReceiveState { in_flight: count, ..state }, ReceiveAction::Write { count })
                }
            },
            ReceiveEvent::Written { cancelled } => {
                let received = if state.received <= state.size && (state.in_flight as u64) <= state.size
                    - state.received {
                    state.received + state.in_flight as u64
                } else {
                    state.size
                };
                continue_body_step(ReceiveState { received, in_flight: 0, ..state }, cancelled)
            },
            ReceiveEvent::Failed => (failed, ReceiveAction::Abort { failure: ReceiveFailure::Reported }),
            _ => unchanged,
        },
        ReceivePhase::Checking => match event {
            ReceiveEvent::Drained { pending, cancelled } => if pending != 0 {
                (failed, ReceiveAction::Abort {
                    failure: ReceiveFailure::SizeMismatch {
                        expected: state.size,
                        actual: state.size.saturating_add(pending as u64),
                    },
                })
            } else if cancelled {
                (failed, ReceiveAction::Abort { failure: ReceiveFailure::Cancelled })
            } else {
                (ReceiveState { phase: ReceivePhase::AwaitingEof, ..state }, ReceiveAction::ReadEnd)
            },
            ReceiveEvent::Failed => (failed, ReceiveAction::Abort { failure: ReceiveFailure::Reported }),
            _ => unchanged,
        },
        ReceivePhase::AwaitingEof => match event {
            ReceiveEvent::EndRead { count, cancelled } => if count != 0 {
                (failed, ReceiveAction::Abort {
                    failure: ReceiveFailure::SizeMismatch {
                        expected: state.size,
                        actual: state.size.saturating_add(count as u64),
                    },
                })
            } else if cancelled {
                (failed, ReceiveAction::Abort { failure: ReceiveFailure::Cancelled })
            } else {
                (ReceiveState { phase: ReceivePhase::Committing, ..state }, ReceiveAction::Commit)
            },
            ReceiveEvent::Failed => (failed, ReceiveAction::Abort { failure: ReceiveFailure::Reported }),
            _ => unchanged,
        },
        ReceivePhase::Committing => match event {
            ReceiveEvent::Committed => (ReceiveState { phase: ReceivePhase::Received, ..state }, ReceiveAction::Deliver),
            ReceiveEvent::Failed => (failed, ReceiveAction::Fail { failure: ReceiveFailure::Reported }),
            _ => unchanged,
        },
    }
}

/// What holds of every state receiving reaches: the bytes written never
/// exceed the declared size, the body is read only while bytes are missing,
/// and it is checked, committed and delivered only once all arrived.
pub open spec fn receive_wf(s: ReceiveState) -> bool {
    &&& s.received <= s.size
    &&& (s.phase is Header || s.phase is Preparing) ==> s.received == 0 && s.in_flight == 0
    &&& s.phase is Body ==> s.received < s.size && s.in_flight <= s.size - s.received
    &&& (s.phase is Checking || s.phase is AwaitingEof || s.phase is Committing || s.phase is Received)
        ==> s.received == s.size
}

/// Every step keeps `receive_wf`, which holds of the first state.
pub proof fn receive_keeps_its_invariant(s: ReceiveState, e: ReceiveEvent)
    requires
        receive_wf(s),
    ensures
        receive_wf(receive_next(s, e).0),
{
}

/// A file is committed only after exactly its declared bytes arrived, with
/// nothing buffered past them, and then the sender's end of stream, with no
/// cancellation.
pub proof fn commit_only_after_the_whole_body(s: ReceiveState, e: ReceiveEvent)
    requires
        receive_wf(s),
        receive_next(s, e).1 == ReceiveAction::Commit,
    ensures
        s.phase == ReceivePhase::AwaitingEof,
        s.received == s.size,
        e == (ReceiveEvent::EndRead { count: 0, cancelled: false }),
{
}

/// The end of stream is awaited only after the whole body arrived with
/// nothing buffered past it.
pub proof fn eof_awaited_only_after_a_clean_body(s: ReceiveState, e: ReceiveEvent)
    requires
        receive_wf(s),
        !(s.phase is AwaitingEof),
        receive_next(s, e).0.phase is AwaitingEof,
    ensures
        s.phase is Checking,
        s.received == s.size,
        e == (ReceiveEvent::Drained { pending: 0, cancelled: false }),
        receive_next(s, e).1 == ReceiveAction::ReadEnd,
{
}

/// Bytes arriving where the sender's end of stream is awaited fail the
/// transfer and abort the sink.
pub proof fn bytes_past_the_body_fail(s: ReceiveState, count: usize, cancelled: bool)
    requires
        s.phase is AwaitingEof,
        count > 0,
    ensures
        receive_next(s, ReceiveEvent::EndRead { count, cancelled }).0.phase is Failed,
        receive_next(s, ReceiveEvent::EndRead { count, cancelled }).1 matches ReceiveAction::Abort {
            failure: ReceiveFailure::SizeMismatch { expected, actual },
        } && expected == s.size && actual == if s.size + count <= u64::MAX {
            s.size + count
        } else {
            u64::MAX as int
        },
{
}

/// Once the sink exists, every failure aborts it; before, and at the
/// commit, no abort is asked for.
pub proof fn failures_abort_a_prepared_sink(s: ReceiveState, e: ReceiveEvent)
    requires
        s.phase is Body || s.phase is Checking || s.phase is AwaitingEof,
        receive_next(s, e).0.phase is Failed,
    ensures
        receive_next(s, e).1 is Abort,
{
}

/// The error returned for a failure of receiving; a reported failure
/// returns the error its step reported, which is not known here.
pub fn receive_failure_error(f: ReceiveFailure) -> (e: Option<TransferError>)
    ensures
        f is Reported <==> e is None,
        f is Cancelled ==> e matches Some(TransferError::Cancelled),
        f is UnexpectedEof ==> e matches Some(TransferError::UnexpectedEof),
        f matches ReceiveFailure::ReadOverrun { requested, actual } ==> e == Some(
            TransferError::ReadOverrun { requested, actual },
        ),
        f matches ReceiveFailure::SizeMismatch { expected, actual } ==> e == Some(
            TransferError::SizeMismatch { expected, actual },
        ),
{
    match f {
        ReceiveFailure::Cancelled => Some(TransferError::Cancelled),
        ReceiveFailure::UnexpectedEof => Some(TransferError::UnexpectedEof),
        ReceiveFailure::ReadOverrun { requested, actual } => Some(TransferError::ReadOverrun { requested, actual }),
        ReceiveFailure::SizeMismatch { expected, actual } => Some(TransferError::SizeMismatch { expected, actual }),
        ReceiveFailure::Reported => None,
    }
}

} // verus!
