//! Fixed-size headers that precede text and file payloads on data streams.

use vstd::prelude::*;
use crate::bytes::{
    be_bytes, be_value, lemma_be_bytes, lemma_be_value, lemma_pow256_values, push_be, read_be,
};
use crate::protocol::limits::MAX_TEXT_PAYLOAD_SIZE;

verus! {

/// `TST1`.
pub const TEXT_HEADER_MAGIC: [u8; 4] = [0x54, 0x53, 0x54, 0x31];
pub const TEXT_HEADER_LEN: usize = 48;

/// `TSF1`.
pub const FILE_HEADER_MAGIC: [u8; 4] = [0x54, 0x53, 0x46, 0x31];
pub const FILE_HEADER_LEN: usize = 60;

#[derive(Debug)]
pub enum DataHeaderError {
    TextHeaderTooShort(usize),
    FileHeaderTooShort(usize),
    InvalidMagic { expected: [u8; 4], actual: Vec<u8> },
    InvalidVersion(u8),
    NonzeroReserved(u16),
    TextSizeTooLarge(u64),
    NonZeroOffset(u64),
}

#[derive(Debug, Clone, PartialEq, Eq)]
pub struct TextDataHeader {
    pub version: u8,
    pub flags: u8,
    pub session_id: [u8; 16],
    pub transfer_id: [u8; 16],
    pub byte_length: u64,
}

#[derive(Debug, Clone, PartialEq, Eq)]
pub struct FileDataHeader {
    pub version: u8,
    pub flags: u8,
    pub session_id: [u8; 16],
    pub transfer_id: [u8; 16],
    pub item_id: u32,
    pub offset: u64,
    pub payload_size: u64,
}

pub open spec fn text_magic() -> Seq<u8> {
    seq![0x54u8, 0x53u8, 0x54u8, 0x31u8]
}

pub open spec fn file_magic() -> Seq<u8> {
    seq![0x54u8, 0x53u8, 0x46u8, 0x31u8]
}

/// The 48 bytes of an encoded text header.
pub open spec fn text_header_bytes(h: TextDataHeader) -> Seq<u8> {
    text_magic() + seq![h.version, h.flags, 0u8, 0u8] + h.session_id@ + h.transfer_id@ + be_bytes(
        h.byte_length as nat,
        8,
    )
}

/// The 60 bytes of an encoded file header.
pub open spec fn file_header_bytes(h: FileDataHeader) -> Seq<u8> {
    file_magic() + seq![h.version, h.flags, 0u8, 0u8] + h.session_id@ + h.transfer_id@ + be_bytes(
        h.item_id as nat,
        4,
    ) + be_bytes(h.offset as nat, 8) + be_bytes(h.payload_size as nat, 8)
}

/// Why a byte string is refused as a header, in the order the checks run.
pub enum HeaderFault {
    TooShort,
    Magic,
    Version,
    Reserved,
    TextSize,
    Offset,
}

pub open spec fn reserved_field(b: Seq<u8>) -> nat {
    be_value(b.subrange(6, 8))
}

pub open spec fn text_fault(b: Seq<u8>) -> Option<HeaderFault> {
    if b.len() < 48 {
        Some(HeaderFault::TooShort)
    } else if b.subrange(0, 4) != text_magic() {
        Some(HeaderFault::Magic)
    } else if b[4] != 1 {
        Some(HeaderFault::Version)
    } else if reserved_field(b) != 0 {
        Some(HeaderFault::Reserved)
    } else if be_value(b.subrange(40, 48)) > MAX_TEXT_PAYLOAD_SIZE {
        Some(HeaderFault::TextSize)
    } else {
        None
    }
}

pub open spec fn file_fault(b: Seq<u8>) -> Option<HeaderFault> {
    if b.len() < 60 {
        Some(HeaderFault::TooShort)
    } else if b.subrange(0, 4) != file_magic() {
        Some(HeaderFault::Magic)
    } else if b[4] != 1 {
        Some(HeaderFault::Version)
    } else if reserved_field(b) != 0 {
        Some(HeaderFault::Reserved)
    } else if be_value(b.subrange(44, 52)) != 0 {
        Some(HeaderFault::Offset)
    } else {
        None
    }
}

/// The error that `decode` reports for a fault of `b`.
pub open spec fn fault_error(
    e: DataHeaderError,
    f: HeaderFault,
    b: Seq<u8>,
    magic: Seq<u8>,
    is_text: bool,
) -> bool {
    match f {
        HeaderFault::TooShort => if is_text {
            e matches DataHeaderError::TextHeaderTooShort(n) && n == b.len()
        } else {
            e matches DataHeaderError::FileHeaderTooShort(n) && n == b.len()
        },
        HeaderFault::Magic => e matches DataHeaderError::InvalidMagic { expected, actual } && expected@
            == magic && actual@ == b.subrange(0, 4),
        HeaderFault::Version => e matches DataHeaderError::InvalidVersion(v) && v == b[4],
        HeaderFault::Reserved => e matches DataHeaderError::NonzeroReserved(r) && r
            == reserved_field(b),
        HeaderFault::TextSize => e matches DataHeaderError::TextSizeTooLarge(n) && n == be_value(
            b.subrange(40, 48),
        ),
        HeaderFault::Offset => e matches DataHeaderError::NonZeroOffset(n) && n == be_value(
            b.subrange(44, 52),
        ),
    }
}

/// The header that a fault-free text header encodes.
pub open spec fn decoded_text(h: TextDataHeader, b: Seq<u8>) -> bool {
    &&& h.version == b[4]
    &&& h.flags == b[5]
    &&& h.session_id@ == b.subrange(8, 24)
    &&& h.transfer_id@ == b.subrange(24, 40)
    &&& h.byte_length == be_value(b.subrange(40, 48))
}

pub open spec fn decoded_file(h: FileDataHeader, b: Seq<u8>) -> bool {
    &&& h.version == b[4]
    &&& h.flags == b[5]
    &&& h.session_id@ == b.subrange(8, 24)
    &&& h.transfer_id@ == b.subrange(24, 40)
    &&& h.item_id == be_value(b.subrange(40, 44))
    &&& h.offset == be_value(b.subrange(44, 52))
    &&& h.payload_size == be_value(b.subrange(52, 60))
}

fn push_all(out: &mut Vec<u8>, src: &[u8])
    ensures
        final(out)@ == old(out)@ + src@,
{
    let mut i: usize = 0;
    while i < src.len()
        invariant
            i <= src.len(),
            out@ == old(out)@ + src@.take(i as int),
        decreases src.len() - i,
    {
        out.push(src[i]);
        assert(src@.take(i + 1) == src@.take(i as int).push(src@[i as int]));
        i += 1;
    }
    assert(src@.take(src.len() as int) == src@);
}

fn copy16(b: &[u8], start: usize) -> (a: [u8; 16])
    requires
        start + 16 <= b@.len(),
    ensures
        a@ == b@.subrange(start as int, start + 16),
{
    let total = b.len();
    let mut a = [0u8; 16];
    let mut i: usize = 0;
    while i < 16
        invariant
            i <= 16,
            start + 16 <= b@.len(),
            total == b@.len(),
            a@.len() == 16,
            forall|k: int| 0 <= k < i ==> a@[k] == b@[start + k],
        decreases 16 - i,
    {
        a[i] = b[start + i];
        i += 1;
    }
    assert(a@ =~= b@.subrange(start as int, start + 16));
    a
}

fn magic_matches(b: &[u8], magic: &[u8; 4]) -> (r: bool)
    requires
        b@.len() >= 4,
    ensures
        r == (b@.subrange(0, 4) == magic@),
{
    let r = b[0] == magic[0] && b[1] == magic[1] && b[2] == magic[2] && b[3] == magic[3];
    proof {
        if r {
            assert(b@.subrange(0, 4) =~= magic@);
        } else {
            if b@.subrange(0, 4) == magic@ {
                assert(b@.subrange(0, 4)[0] == b@[0]);
                assert(b@.subrange(0, 4)[1] == b@[1]);
                assert(b@.subrange(0, 4)[2] == b@[2]);
                assert(b@.subrange(0, 4)[3] == b@[3]);
            }
        }
    }
    r
}

impl TextDataHeader {
    /// A version 1 header; refuses a payload over the text limit.
    pub fn new(session_id: [u8; 16], transfer_id: [u8; 16], byte_length: u64) -> (res: Result<
        Self,
        DataHeaderError,
    >)
        ensures
            byte_length > MAX_TEXT_PAYLOAD_SIZE ==> (res matches Err(
                DataHeaderError::TextSizeTooLarge(n),
            ) && n == byte_length),
            byte_length <= MAX_TEXT_PAYLOAD_SIZE ==> (res matches Ok(h) && h == (TextDataHeader {
                version: 1,
                flags: 0,
                session_id,
                transfer_id,
                byte_length,
            })),
    {
        if byte_length > MAX_TEXT_PAYLOAD_SIZE {
            return Err(DataHeaderError::TextSizeTooLarge(byte_length));
        }
        Ok(Self { version: 1, flags: 0, session_id, transfer_id, byte_length })
    }

    pub fn encode(&self) -> (out: Vec<u8>)
        ensures
            out@ == text_header_bytes(*self),
            out@.len() == TEXT_HEADER_LEN,
    {
        let mut out: Vec<u8> = Vec::new();
        push_all(&mut out, &TEXT_HEADER_MAGIC);
        out.push(self.version);
        out.push(self.flags);
        push_be(&mut out, 0, 2);
        push_all(&mut out, &self.session_id);
        push_all(&mut out, &self.transfer_id);
        push_be(&mut out, self.byte_length, 8);
        proof {
            lemma_be_bytes(0, 2);
            lemma_be_bytes(self.byte_length as nat, 8);
            reveal_with_fuel(be_bytes, 3);
            assert(TEXT_HEADER_MAGIC@ == text_magic());
            assert(out@ =~= text_header_bytes(*self));
        }
        out
    }

    pub fn decode(bytes: &[u8]) -> (res: Result<Self, DataHeaderError>)
        ensures
            match text_fault(bytes@) {
                None => res matches Ok(h) && decoded_text(h, bytes@),
                Some(f) => res matches Err(e) && fault_error(e, f, bytes@, text_magic(), true),
            },
    {
        if bytes.len() < TEXT_HEADER_LEN {
            return Err(DataHeaderError::TextHeaderTooShort(bytes.len()));
        }
        if !magic_matches(bytes, &TEXT_HEADER_MAGIC) {
            let mut actual: Vec<u8> = Vec::new();
            push_all(&mut actual, &bytes[0..4]);
            assert(TEXT_HEADER_MAGIC@ == text_magic());
            return Err(DataHeaderError::InvalidMagic { expected: TEXT_HEADER_MAGIC, actual });
        }
        assert(TEXT_HEADER_MAGIC@ == text_magic());
        let version = bytes[4];
        if version != 1 {
            return Err(DataHeaderError::InvalidVersion(version));
        }
        let flags = bytes[5];
        let reserved = read_be(bytes, 6, 2);
        proof {
            lemma_be_value(bytes@.subrange(6, 8));
            lemma_pow256_values();
        }
        if reserved != 0 {
            return Err(DataHeaderError::NonzeroReserved(reserved as u16));
        }
        let session_id = copy16(bytes, 8);
        let transfer_id = copy16(bytes, 24);
        let byte_length = read_be(bytes, 40, 8);
        if byte_length > MAX_TEXT_PAYLOAD_SIZE {
            return Err(DataHeaderError::TextSizeTooLarge(byte_length));
        }
        Ok(Self { version, flags, session_id, transfer_id, byte_length })
    }
}

impl FileDataHeader {
    /// A version 1 header; only offset 0 is supported.
    pub fn new(
        session_id: [u8; 16],
        transfer_id: [u8; 16],
        item_id: u32,
        offset: u64,
        payload_size: u64,
    ) -> (res: Result<Self, DataHeaderError>)
        ensures
            offset != 0 ==> (res matches Err(DataHeaderError::NonZeroOffset(n)) && n == offset),
            offset == 0 ==> (res matches Ok(h) && h == (FileDataHeader {
                version: 1,
                flags: 0,
                session_id,
                transfer_id,
                item_id,
                offset,
                payload_size,
            })),
    {
        if offset != 0 {
            return Err(DataHeaderError::NonZeroOffset(offset));
        }
        Ok(Self { version: 1, flags: 0, session_id, transfer_id, item_id, offset, payload_size })
    }

    pub fn encode(&self) -> (out: Vec<u8>)
        ensures
            out@ == file_header_bytes(*self),
            out@.len() == FILE_HEADER_LEN,
    {
        let mut out: Vec<u8> = Vec::new();
        push_all(&mut out, &FILE_HEADER_MAGIC);
        out.push(self.version);
        out.push(self.flags);
        push_be(&mut out, 0, 2);
        push_all(&mut out, &self.session_id);
        push_all(&mut out, &self.transfer_id);
        push_be(&mut out, self.item_id as u64, 4);
        push_be(&mut out, self.offset, 8);
        push_be(&mut out, self.payload_size, 8);
        proof {
            lemma_be_bytes(0, 2);
            lemma_be_bytes(self.item_id as nat, 4);
            lemma_be_bytes(self.offset as nat, 8);
            lemma_be_bytes(self.payload_size as nat, 8);
            reveal_with_fuel(be_bytes, 3);
            assert(FILE_HEADER_MAGIC@ == file_magic());
            assert(out@ =~= file_header_bytes(*self));
        }
        out
    }

    pub fn decode(bytes: &[u8]) -> (res: Result<Self, DataHeaderError>)
        ensures
            match file_fault(bytes@) {
                None => res matches Ok(h) && decoded_file(h, bytes@),
                Some(f) => res matches Err(e) && fault_error(e, f, bytes@, file_magic(), false),
            },
    {
        if bytes.len() < FILE_HEADER_LEN {
            return Err(DataHeaderError::FileHeaderTooShort(bytes.len()));
        }
        if !magic_matches(bytes, &FILE_HEADER_MAGIC) {
            let mut actual: Vec<u8> = Vec::new();
            push_all(&mut actual, &bytes[0..4]);
            assert(FILE_HEADER_MAGIC@ == file_magic());
            return Err(DataHeaderError::InvalidMagic { expected: FILE_HEADER_MAGIC, actual });
        }
        assert(FILE_HEADER_MAGIC@ == file_magic());
        let version = bytes[4];
        if version != 1 {
            return Err(DataHeaderError::InvalidVersion(version));
        }
        let flags = bytes[5];
        let reserved = read_be(bytes, 6, 2);
        proof {
            lemma_be_value(bytes@.subrange(6, 8));
            lemma_be_value(bytes@.subrange(40, 44));
            lemma_pow256_values();
        }
        if reserved != 0 {
            return Err(DataHeaderError::NonzeroReserved(reserved as u16));
        }
        let session_id = copy16(bytes, 8);
        let transfer_id = copy16(bytes, 24);
        let item_id = read_be(bytes, 40, 4);
        let offset = read_be(bytes, 44, 8);
        if offset != 0 {
            return Err(DataHeaderError::NonZeroOffset(offset));
        }
        let payload_size = read_be(bytes, 52, 8);
        Ok(Self { version, flags, session_id, transfer_id, item_id: item_id as u32, offset, payload_size })
    }
}

// ---------------------------------------------------------------------------
// Laws.
// ---------------------------------------------------------------------------

/// Decoding an encoded version 1 text header within the size limit gives
/// back every field of the header.
pub proof fn text_header_roundtrip(h: TextDataHeader)
    requires
        h.version == 1,
        h.byte_length <= MAX_TEXT_PAYLOAD_SIZE,
    ensures
        text_fault(text_header_bytes(h)) is None,
        decoded_text(h, text_header_bytes(h)),
{
    let b = text_header_bytes(h);
    lemma_be_bytes(h.byte_length as nat, 8);
    lemma_be_bytes(0, 2);
    lemma_pow256_values();
    reveal_with_fuel(be_bytes, 3);
    assert(b.subrange(0, 4) =~= text_magic());
    assert(b.subrange(6, 8) =~= be_bytes(0, 2));
    assert(b.subrange(8, 24) =~= h.session_id@);
    assert(b.subrange(24, 40) =~= h.transfer_id@);
    assert(b.subrange(40, 48) =~= be_bytes(h.byte_length as nat, 8));
}

/// A byte string accepted as a text header re-encodes to its first 48 bytes.
pub proof fn text_header_reencode(h: TextDataHeader, b: Seq<u8>)
    requires
        text_fault(b) is None,
        decoded_text(h, b),
    ensures
        text_header_bytes(h) == b.subrange(0, 48),
{
    lemma_be_value(b.subrange(40, 48));
    lemma_be_value(b.subrange(6, 8));
    lemma_pow256_values();
    reveal_with_fuel(be_bytes, 3);
    assert(b.subrange(6, 8) == be_bytes(0, 2));
    assert(b.subrange(40, 48) == be_bytes(h.byte_length as nat, 8));
    let mid = seq![h.version, h.flags, 0u8, 0u8];
    assert(b.subrange(4, 8) =~= mid) by {
        assert(b.subrange(6, 8)[0] == 0u8);
        assert(b.subrange(6, 8)[1] == 0u8);
    }
    assert(b.subrange(0, 48) =~= b.subrange(0, 4) + b.subrange(4, 8) + b.subrange(8, 24)
        + b.subrange(24, 40) + b.subrange(40, 48));
}

/// Decoding an encoded version 1 file header at offset 0 gives back every
/// field of the header.
pub proof fn file_header_roundtrip(h: FileDataHeader)
    requires
        h.version == 1,
        h.offset == 0,
    ensures
        file_fault(file_header_bytes(h)) is None,
        decoded_file(h, file_header_bytes(h)),
{
    let b = file_header_bytes(h);
    lemma_be_bytes(h.item_id as nat, 4);
    lemma_be_bytes(h.offset as nat, 8);
    lemma_be_bytes(h.payload_size as nat, 8);
    lemma_be_bytes(0, 2);
    lemma_pow256_values();
    reveal_with_fuel(be_bytes, 3);
    assert(b.subrange(0, 4) =~= file_magic());
    assert(b.subrange(6, 8) =~= be_bytes(0, 2));
    assert(b.subrange(8, 24) =~= h.session_id@);
    assert(b.subrange(24, 40) =~= h.transfer_id@);
    assert(b.subrange(40, 44) =~= be_bytes(h.item_id as nat, 4));
    assert(b.subrange(44, 52) =~= be_bytes(h.offset as nat, 8));
    assert(b.subrange(52, 60) =~= be_bytes(h.payload_size as nat, 8));
}

/// A byte string accepted as a file header re-encodes to its first 60 bytes.
pub proof fn file_header_reencode(h: FileDataHeader, b: Seq<u8>)
    requires
        file_fault(b) is None,
        decoded_file(h, b),
    ensures
        file_header_bytes(h) == b.subrange(0, 60),
{
    lemma_be_value(b.subrange(40, 44));
    lemma_be_value(b.subrange(44, 52));
    lemma_be_value(b.subrange(52, 60));
    lemma_be_value(b.subrange(6, 8));
    lemma_pow256_values();
    reveal_with_fuel(be_bytes, 3);
    assert(b.subrange(6, 8) == be_bytes(0, 2));
    assert(b.subrange(40, 44) == be_bytes(h.item_id as nat, 4));
    assert(b.subrange(44, 52) == be_bytes(h.offset as nat, 8));
    assert(b.subrange(52, 60) == be_bytes(h.payload_size as nat, 8));
    let mid = seq![h.version, h.flags, 0u8, 0u8];
    assert(b.subrange(4, 8) =~= mid) by {
        assert(b.subrange(6, 8)[0] == 0u8);
        assert(b.subrange(6, 8)[1] == 0u8);
    }
    assert(b.subrange(0, 60) =~= b.subrange(0, 4) + b.subrange(4, 8) + b.subrange(8, 24)
        + b.subrange(24, 40) + b.subrange(40, 44) + b.subrange(44, 52) + b.subrange(52, 60));
}

} // verus!
