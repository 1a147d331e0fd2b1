//! Invitations: what a host shows (as a QR code or link) so that a peer can
//! join its session, how the link is built around the invitation's CBOR
//! encoding, and the checks a received invitation has to pass.

use vstd::prelude::*;
use vstd::utf8::encode_utf8;
use base64::engine::general_purpose::URL_SAFE_NO_PAD;
use base64::Engine;
use crate::protocol::limits::{
    CLOCK_SKEW_TOLERANCE_SECS, MAX_INVITATION_B64_BYTES, MAX_INVITATION_CBOR_BYTES,
    MAX_INVITE_LIFETIME_SECS, MAX_QR_URL_BYTES, PROTOCOL_MAJOR,
};
use crate::text::{
    chars_of, contains_char, extend_from, find_first, first_index, has_prefix, starts_with_chars,
    string_from_chars, sub_vec, trim, trim_chars, utf8_byte_len, utf8_len,
};

verus! {

#[verifier::external_type_specification]
#[verifier::external_body]
pub struct ExDecodeError(base64::DecodeError);

#[derive(Debug)]
pub enum InvitationError {
    Serialization(String),
    Deserialization(String),
    Base64(base64::DecodeError),
    CborTooLarge(usize),
    Base64TooLarge(usize),
    UrlTooLarge(usize),
    InvalidFormatVersion(u32),
    InvalidProtocolMajor(u32),
    InvalidHostAddressPrefix,
    HostAddressTooLong(usize),
    Expired { expires_at: u64, now: u64 },
    FutureIssued { issued_at: u64, now: u64 },
    InvalidUrlFormat,
}

/// Version 1 of the invitation a host hands out.
#[derive(Debug, Clone, PartialEq, Eq)]
pub struct InvitationV1 {
    pub format_version: u32,
    pub protocol_major: u32,
    pub host_address: String,
    pub session_id: [u8; 16],
    pub invite_secret: [u8; 32],
    pub issued_at: u64,
    pub expires_at: u64,
}

/// The URL-safe base64 text (no padding) of `bytes`.
pub uninterp spec fn base64url_encode(bytes: Seq<u8>) -> Seq<char>;

/// The bytes that URL-safe base64 text (no padding) stands for, when it is
/// well formed.
pub uninterp spec fn base64url_decode(text: Seq<u8>) -> Option<Seq<u8>>;

/// The URL-safe base64 alphabet.
pub open spec fn is_url_safe_char(c: char) -> bool {
    ||| ('A' <= c && c <= 'Z')
    ||| ('a' <= c && c <= 'z')
    ||| ('0' <= c && c <= '9')
    ||| c == '-'
    ||| c == '_'
}

/// `URL_SAFE_NO_PAD.encode` of the `base64` crate.  Claimed: the text is
/// `base64url_encode(bytes)`, made of the URL-safe alphabet only, and the
/// same engine decodes it back to `bytes`.
#[verifier::external_body]
fn base64url_encode_string(bytes: &[u8]) -> (r: String)
    ensures
        r@ == base64url_encode(bytes@),
        forall|i: int| 0 <= i < r@.len() ==> is_url_safe_char(#[trigger] r@[i]),
        base64url_decode(encode_utf8(r@)) == Some(bytes@),
{
    URL_SAFE_NO_PAD.encode(bytes)
}

/// `URL_SAFE_NO_PAD.decode` of the `base64` crate.  Claimed: it succeeds
/// exactly when `base64url_decode(text)` is defined, with those bytes.
/// Which `DecodeError` comes back otherwise is not stated.
#[verifier::external_body]
fn base64url_decode_bytes(text: &[u8]) -> (r: Result<Vec<u8>, base64::DecodeError>)
    ensures
        r is Ok <==> base64url_decode(text@) is Some,
        r matches Ok(v) ==> v@ == base64url_decode(text@)->0,
{
    URL_SAFE_NO_PAD.decode(text)
}

impl InvitationV1 {
    /// An invitation issued at `now_unix_secs`, valid for `lifetime_secs`
    /// but never longer than the protocol's maximum.
    pub fn new(
        host_address: String,
        session_id: [u8; 16],
        invite_secret: [u8; 32],
        now_unix_secs: u64,
        lifetime_secs: u64,
    ) -> (inv: Self)
        requires
            now_unix_secs + (if lifetime_secs < MAX_INVITE_LIFETIME_SECS {
                lifetime_secs
            } else {
                MAX_INVITE_LIFETIME_SECS
            }) <= u64::MAX,
        ensures
            inv.format_version == 1,
            inv.protocol_major == PROTOCOL_MAJOR,
            inv.host_address@ == host_address@,
            inv.session_id == session_id,
            inv.invite_secret == invite_secret,
            inv.issued_at == now_unix_secs,
            inv.expires_at == now_unix_secs + (if lifetime_secs < MAX_INVITE_LIFETIME_SECS {
                lifetime_secs
            } else {
                MAX_INVITE_LIFETIME_SECS
            }),
    {
        let lifetime = if lifetime_secs < MAX_INVITE_LIFETIME_SECS {
            lifetime_secs
        } else {
            MAX_INVITE_LIFETIME_SECS
        };
        InvitationV1 {
            format_version: 1,
            protocol_major: PROTOCOL_MAJOR,
            host_address,
            session_id,
            invite_secret,
            issued_at: now_unix_secs,
            expires_at: now_unix_secs + lifetime,
        }
    }

    /// The first field check that fails, if any.
    pub open spec fn field_fault(&self) -> Option<InvitationError> {
        if self.format_version != 1 {
            Some(InvitationError::InvalidFormatVersion(self.format_version))
        } else if self.protocol_major != PROTOCOL_MAJOR {
            Some(InvitationError::InvalidProtocolMajor(self.protocol_major))
        } else if !has_prefix(self.host_address@, seq!['t', 'c']) {
            Some(InvitationError::InvalidHostAddressPrefix)
        } else if utf8_len(self.host_address@) > 768 {
            Some(InvitationError::HostAddressTooLong(utf8_len(self.host_address@) as usize))
        } else {
            None
        }
    }

    /// The first check that fails at `now`, if any: the fields, then the
    /// issue time, then the expiry, each with the clock-skew tolerance.
    pub open spec fn fault_at(&self, now: u64) -> Option<InvitationError> {
        if self.field_fault() is Some {
            self.field_fault()
        } else if now + CLOCK_SKEW_TOLERANCE_SECS < self.issued_at {
            Some(InvitationError::FutureIssued { issued_at: self.issued_at, now })
        } else if self.expires_at + CLOCK_SKEW_TOLERANCE_SECS < now {
            Some(InvitationError::Expired { expires_at: self.expires_at, now })
        } else {
            None
        }
    }

    pub fn validate_fields(&self) -> (r: Result<(), InvitationError>)
        ensures
            self.field_fault() is None ==> r is Ok,
            self.field_fault() matches Some(e) ==> r == Err::<(), InvitationError>(e),
    {
        if self.format_version != 1 {
            return Err(InvitationError::InvalidFormatVersion(self.format_version));
        }
        if self.protocol_major != PROTOCOL_MAJOR {
            return Err(InvitationError::InvalidProtocolMajor(self.protocol_major));
        }
        let addr = chars_of(self.host_address.as_str());
        let tc = ['t', 'c'];
        if !starts_with_chars(&addr, &tc) {
            return Err(InvitationError::InvalidHostAddressPrefix);
        }
        let n = utf8_byte_len(&addr);
        if n > 768 {
            return Err(InvitationError::HostAddressTooLong(n));
        }
        Ok(())
    }

    /// Checks the fields and that `now_unix_secs` lies within the validity
    /// window, widened on both sides by the clock-skew tolerance.
    pub fn validate(&self, now_unix_secs: u64) -> (r: Result<(), InvitationError>)
        requires
            now_unix_secs + CLOCK_SKEW_TOLERANCE_SECS <= u64::MAX,
            self.expires_at + CLOCK_SKEW_TOLERANCE_SECS <= u64::MAX,
        ensures
            self.fault_at(now_unix_secs) is None ==> r is Ok,
            self.fault_at(now_unix_secs) matches Some(e) ==> r == Err::<(), InvitationError>(e),
    {
        match self.validate_fields() {
            Ok(()) => {},
            Err(e) => return Err(e),
        }
        if now_unix_secs + CLOCK_SKEW_TOLERANCE_SECS < self.issued_at {
            return Err(InvitationError::FutureIssued { issued_at: self.issued_at, now: now_unix_secs });
        }
        if self.expires_at + CLOCK_SKEW_TOLERANCE_SECS < now_unix_secs {
            return Err(InvitationError::Expired { expires_at: self.expires_at, now: now_unix_secs });
        }
        Ok(())
    }

    /// The invitation link for the CBOR encoding of an invitation:
    /// `base_app_url` without trailing slashes, then `/#i=` and the
    /// encoding in URL-safe base64; each stage within its size limit.
    pub fn to_qr_url(cbor_bytes: &[u8], base_app_url: &str) -> (r: Result<String, InvitationError>)
        ensures
            cbor_bytes@.len() > MAX_INVITATION_CBOR_BYTES ==> r == Err::<String, InvitationError>(
                InvitationError::CborTooLarge(cbor_bytes@.len() as usize),
            ),
            cbor_bytes@.len() <= MAX_INVITATION_CBOR_BYTES && base64url_encode(cbor_bytes@).len()
                > MAX_INVITATION_B64_BYTES ==> r == Err::<String, InvitationError>(
                InvitationError::Base64TooLarge(base64url_encode(cbor_bytes@).len() as usize),
            ),
            cbor_bytes@.len() <= MAX_INVITATION_CBOR_BYTES && base64url_encode(cbor_bytes@).len()
                <= MAX_INVITATION_B64_BYTES && utf8_len(qr_url(base_app_url@, cbor_bytes@))
                > MAX_QR_URL_BYTES ==> r == Err::<String, InvitationError>(
                InvitationError::UrlTooLarge(utf8_len(qr_url(base_app_url@, cbor_bytes@)) as usize),
            ),
            r is Ok <==> qr_url_of(cbor_bytes@, base_app_url@) is Some,
            r matches Ok(url) ==> url@ == qr_url(base_app_url@, cbor_bytes@),
            r is Ok && !base_app_url@.contains('#') ==> url_payload(
                qr_url(base_app_url@, cbor_bytes@),
            ) == Some(base64url_encode(cbor_bytes@)) && base64url_payload(
                base64url_encode(cbor_bytes@),
            ) == Some(cbor_bytes@),
    {
        if cbor_bytes.len() > MAX_INVITATION_CBOR_BYTES {
            return Err(InvitationError::CborTooLarge(cbor_bytes.len()));
        }
        let b64 = base64url_encode_string(cbor_bytes);
        let b64_chars = chars_of(b64.as_str());
        proof {
            lemma_url_safe_ascii(b64_chars@);
        }
        let b64_len = b64_chars.len();
        if b64_len > MAX_INVITATION_B64_BYTES {
            return Err(InvitationError::Base64TooLarge(b64_len));
        }
        let base = chars_of(base_app_url);
        let mut end: usize = base.len();
        assert(base@.subrange(0, end as int) =~= base@);
        while end > 0 && base[end - 1] == '/'
            invariant
                end <= base@.len(),
                trim_end_slashes(base@) == trim_end_slashes(base@.subrange(0, end as int)),
            decreases end,
        {
            assert(base@.subrange(0, end as int).drop_last() =~= base@.subrange(0, end - 1));
            end -= 1;
        }
        let mut url = sub_vec(&base, 0, end);
        let sep = chars_of("/#i=");
        extend_from(&mut url, &sep);
        extend_from(&mut url, &b64_chars);
        assert(url@ =~= qr_url(base_app_url@, cbor_bytes@));
        let url_len = utf8_byte_len(&url);
        if url_len > MAX_QR_URL_BYTES {
            return Err(InvitationError::UrlTooLarge(url_len));
        }
        proof {
            if !base_app_url@.contains('#') {
                lemma_link_payload(base@, b64_chars@);
                lemma_payload_decodes(b64_chars@, cbor_bytes@);
            }
        }
        Ok(string_from_chars(&url))
    }

    /// The checks on the base64 text of an invitation, and its decoding:
    /// the CBOR encoding of the invitation, to be parsed by the caller and
    /// then checked with [`InvitationV1::validate`].
    pub fn from_base64url(encoded: &str) -> (r: Result<Vec<u8>, InvitationError>)
        ensures
            base64url_outcome(encoded@, r),
    {
        let chars = chars_of(encoded);
        let n = utf8_byte_len(&chars);
        if n > MAX_INVITATION_B64_BYTES {
            return Err(InvitationError::Base64TooLarge(n));
        }
        let trimmed = string_from_chars(&trim_chars(&chars));
        let text: &[u8] = trimmed.as_str().as_bytes();
        let bytes = match base64url_decode_bytes(text) {
            Ok(b) => b,
            Err(e) => return Err(InvitationError::Base64(e)),
        };
        if bytes.len() > MAX_INVITATION_CBOR_BYTES {
            return Err(InvitationError::CborTooLarge(bytes.len()));
        }
        Ok(bytes)
    }

    /// The invitation carried by a link (`...#i=<base64>`), by a bare
    /// fragment (`i=<base64>`) or by bare base64 text, as its CBOR encoding.
    pub fn from_url(url: &str) -> (r: Result<Vec<u8>, InvitationError>)
        ensures
            url_payload(url@) is None ==> r == Err::<Vec<u8>, InvitationError>(
                InvitationError::InvalidUrlFormat,
            ),
            url_payload(url@) matches Some(p) ==> base64url_outcome(p, r),
    {
        let u = chars_of(url);
        proof {
            crate::text::lemma_first_index(u@, '#');
            reveal_strlit("i=");
        }
        let fragment = match find_first(&u, '#') {
            Some(h) => sub_vec(&u, h + 1, u.len()),
            None => {
                let http = chars_of("http://");
                let https = chars_of("https://");
                if starts_with_chars(&u, &http) || starts_with_chars(&u, &https) {
                    return Err(InvitationError::InvalidUrlFormat);
                }
                u
            },
        };
        let key = chars_of("i=");
        let payload = if starts_with_chars(&fragment, &key) {
            sub_vec(&fragment, 2, fragment.len())
        } else if contains_char(&fragment, '=') {
            return Err(InvitationError::InvalidUrlFormat);
        } else {
            fragment
        };
        let text = string_from_chars(&payload);
        InvitationV1::from_base64url(text.as_str())
    }
}

/// The size check on an invitation's CBOR encoding, made before it is
/// parsed.
pub fn check_invitation_cbor(bytes: &[u8]) -> (r: Result<(), InvitationError>)
    ensures
        bytes@.len() > MAX_INVITATION_CBOR_BYTES ==> r == Err::<(), InvitationError>(
            InvitationError::CborTooLarge(bytes@.len() as usize),
        ),
        bytes@.len() <= MAX_INVITATION_CBOR_BYTES ==> r is Ok,
{
    if bytes.len() > MAX_INVITATION_CBOR_BYTES {
        return Err(InvitationError::CborTooLarge(bytes.len()));
    }
    Ok(())
}

/// `s` without its trailing slashes.
pub open spec fn trim_end_slashes(s: Seq<char>) -> Seq<char>
    decreases s.len(),
{
    if s.len() > 0 && s.last() == '/' {
        trim_end_slashes(s.drop_last())
    } else {
        s
    }
}

/// The link built around the CBOR encoding of an invitation.
pub open spec fn qr_url(base: Seq<char>, cbor: Seq<u8>) -> Seq<char> {
    trim_end_slashes(base) + "/#i="@ + base64url_encode(cbor)
}

/// The link, when every stage is within its size limit.
pub open spec fn qr_url_of(cbor: Seq<u8>, base: Seq<char>) -> Option<Seq<char>> {
    if cbor.len() > MAX_INVITATION_CBOR_BYTES || base64url_encode(cbor).len()
        > MAX_INVITATION_B64_BYTES || utf8_len(qr_url(base, cbor)) > MAX_QR_URL_BYTES {
        None
    } else {
        Some(qr_url(base, cbor))
    }
}

/// The base64 text that a link carries, or `None` when the link is not of
/// a recognised form.
pub open spec fn url_payload(url: Seq<char>) -> Option<Seq<char>> {
    let h = first_index(url, '#');
    if h < 0 && (has_prefix(url, "http://"@) || has_prefix(url, "https://"@)) {
        None
    } else {
        let fragment = if h >= 0 {
            url.subrange(h + 1, url.len() as int)
        } else {
            url
        };
        if has_prefix(fragment, "i="@) {
            Some(fragment.subrange(2, fragment.len() as int))
        } else if fragment.contains('=') {
            None
        } else {
            Some(fragment)
        }
    }
}

/// The CBOR encoding carried by base64 text, when every check passes.
pub open spec fn base64url_payload(encoded: Seq<char>) -> Option<Seq<u8>> {
    if utf8_len(encoded) > MAX_INVITATION_B64_BYTES {
        None
    } else {
        match base64url_decode(encode_utf8(trim(encoded))) {
            Some(b) => if b.len() > MAX_INVITATION_CBOR_BYTES {
                None
            } else {
                Some(b)
            },
            None => None,
        }
    }
}

/// How decoding base64 text turns out: too long, not base64, too large a
/// payload, or the payload.
pub open spec fn base64url_outcome(encoded: Seq<char>, r: Result<Vec<u8>, InvitationError>) -> bool {
    let decoded = base64url_decode(encode_utf8(trim(encoded)));
    if utf8_len(encoded) > MAX_INVITATION_B64_BYTES {
        r == Err::<Vec<u8>, InvitationError>(
            InvitationError::Base64TooLarge(utf8_len(encoded) as usize),
        )
    } else if decoded is None {
        r matches Err(InvitationError::Base64(_))
    } else if decoded->0.len() > MAX_INVITATION_CBOR_BYTES {
        r == Err::<Vec<u8>, InvitationError>(
            InvitationError::CborTooLarge(decoded->0.len() as usize),
        )
    } else {
        r matches Ok(v) && v@ == decoded->0
    }
}

/// An invitation whose fields pass is accepted exactly while `now` lies
/// within its validity window, widened on both sides by the clock-skew
/// tolerance.
pub proof fn validity_window(inv: InvitationV1, now: u64)
    requires
        inv.field_fault() is None,
    ensures
        inv.fault_at(now) is None <==> (inv.issued_at <= now + CLOCK_SKEW_TOLERANCE_SECS && now
            <= inv.expires_at + CLOCK_SKEW_TOLERANCE_SECS),
{
}

proof fn lemma_trim_end_slashes_prefix(s: Seq<char>)
    ensures
        trim_end_slashes(s).len() <= s.len(),
        trim_end_slashes(s) == s.subrange(0, trim_end_slashes(s).len() as int),
    decreases s.len(),
{
    if s.len() > 0 && s.last() == '/' {
        lemma_trim_end_slashes_prefix(s.drop_last());
        assert(trim_end_slashes(s) =~= s.subrange(0, trim_end_slashes(s).len() as int));
    } else {
        assert(s.subrange(0, s.len() as int) =~= s);
    }
}

proof fn lemma_first_index_after(a: Seq<char>, b: Seq<char>, c: char)
    requires
        !a.contains(c),
        first_index(b, c) >= 0,
    ensures
        first_index(a + b, c) == a.len() + first_index(b, c),
    decreases a.len(),
{
    if a.len() > 0 {
        assert(a[0] != c);
        assert((a + b)[0] == a[0]);
        assert((a + b).drop_first() =~= a.drop_first() + b);
        assert(!a.drop_first().contains(c)) by {
            if a.drop_first().contains(c) {
                let k = choose|k: int| 0 <= k < a.drop_first().len() && a.drop_first()[k] == c;
                assert(a[k + 1] == c);
            }
        }
        lemma_first_index_after(a.drop_first(), b, c);
    } else {
        assert(a + b =~= b);
    }
}

/// The link around base64 text `b` carries exactly `b`, when the base holds
/// no `#`.
proof fn lemma_link_payload(base: Seq<char>, b: Seq<char>)
    requires
        !base.contains('#'),
        forall|i: int| 0 <= i < b.len() ==> is_url_safe_char(#[trigger] b[i]),
    ensures
        url_payload(trim_end_slashes(base) + "/#i="@ + b) == Some(b),
{
    reveal_strlit("/#i=");
    reveal_strlit("i=");
    let t = trim_end_slashes(base);
    lemma_trim_end_slashes_prefix(base);
    assert(!t.contains('#')) by {
        if t.contains('#') {
            let k = choose|k: int| 0 <= k < t.len() && t[k] == '#';
            assert(base[k] == t[k]);
        }
    }
    let a = t + seq!['/'];
    assert(!a.contains('#')) by {
        if a.contains('#') {
            let k = choose|k: int| 0 <= k < a.len() && a[k] == '#';
            if k < t.len() {
                assert(a[k] == t[k]);
            }
        }
    }
    let rest = seq!['#', 'i', '='] + b;
    assert(first_index(rest, '#') == 0);
    let url = t + "/#i="@ + b;
    assert(url =~= a + rest);
    lemma_first_index_after(a, rest, '#');
    let h = first_index(url, '#');
    assert(h == t.len() + 1);
    let fragment = url.subrange(h + 1, url.len() as int);
    assert(fragment =~= seq!['i', '='] + b);
    assert(has_prefix(fragment, "i="@)) by {
        assert(fragment.subrange(0, 2) =~= "i="@);
    }
    assert(fragment.subrange(2, fragment.len() as int) =~= b);
}

/// Base64 text of an encoding within the limits decodes, through every
/// check, to that encoding.
proof fn lemma_payload_decodes(b: Seq<char>, cbor: Seq<u8>)
    requires
        forall|i: int| 0 <= i < b.len() ==> is_url_safe_char(#[trigger] b[i]),
        b.len() <= MAX_INVITATION_B64_BYTES,
        cbor.len() <= MAX_INVITATION_CBOR_BYTES,
        base64url_decode(encode_utf8(b)) == Some(cbor),
    ensures
        base64url_payload(b) == Some(cbor),
{
    lemma_url_safe_ascii(b);
    if b.len() > 0 {
        assert(is_url_safe_char(b[0]));
        assert(is_url_safe_char(b.last()));
    }
    assert(crate::text::trim_start(b) == b);
    assert(crate::text::trim_end(b) == b);
    assert(trim(b) == b);
}

proof fn lemma_url_safe_ascii(s: Seq<char>)
    requires
        forall|i: int| 0 <= i < s.len() ==> is_url_safe_char(#[trigger] s[i]),
    ensures
        utf8_len(s) == s.len(),
        vstd::utf8::is_ascii_chars(s),
{
    assert(vstd::utf8::is_ascii_chars(s));
    vstd::utf8::is_ascii_chars_encode_utf8(s);
}

} // verus!
