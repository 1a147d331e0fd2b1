//! Helpers of the desktop application: dates for telemetry sessions,
//! random identifiers, received file names and names reported by file
//! pickers.

use vstd::prelude::*;
use vstd::utf8::{decode_utf8, encode_utf8, valid_utf8};
use rand::RngCore;
use crate::protocol::control::{PeerInfo, PlatformKind};
use crate::protocol::filename::generate_unique_filename;
use crate::session::ui::UiReceivedItem;
use crate::session::event::{format_transfer_id, hex_id, hex_val, parse_transfer_id};
use crate::text::{
    chars_of, dec, extend_from, find_first, find_last, first_index, last_index, lemma_dec,
    lemma_first_index, lemma_last_index, str_eq, string_from_chars, sub_vec, trim, trim_chars,
    u64_to_dec, from_utf8_lossy, utf8_lossy, has_prefix,
};

verus! {

/// The proleptic Gregorian (year, month, day) of the day `z` days after
/// 1970-01-01, by Howard Hinnant's `civil_from_days`.
pub open spec fn civil(z: int) -> (int, int, int) {
    let zz = z + 719468;
    let era = zz / 146097;
    let doe = zz - era * 146097;
    let yoe = (doe - doe / 1460 + doe / 36524 - doe / 146096) / 365;
    let y = yoe + era * 400;
    let doy = doe - (365 * yoe + yoe / 4 - yoe / 100);
    let mp = (5 * doy + 2) / 153;
    let d = doy - (153 * mp + 2) / 5 + 1;
    let m = if mp < 10 {
        mp + 3
    } else {
        mp - 9
    };
    (if m <= 2 {
        y + 1
    } else {
        y
    }, m, d)
}

proof fn lemma_day_of_era(doe: u32)
    requires
        doe <= 146096,
    ensures
        ({
            let yoe = (doe - doe / 1460 + doe / 36524 - doe / 146096) / 365;
            &&& doe / 146096 <= doe - doe / 1460 + doe / 36524
            &&& yoe <= 399
            &&& 365 * yoe + yoe / 4 - yoe / 100 <= doe
            &&& doe - (365 * yoe + yoe / 4 - yoe / 100) <= 365
        }),
{
    assert({
        let yoe = (doe - doe / 1460 + doe / 36524 - doe / 146096) / 365;
        &&& doe / 146096 <= doe - doe / 1460 + doe / 36524
        &&& yoe <= 399
        &&& 365 * yoe + yoe / 4 - yoe / 100 <= doe
        &&& doe - (365 * yoe + yoe / 4 - yoe / 100) <= 365
    }) by (bit_vector)
        requires
            doe <= 146096,
    ;
}

proof fn lemma_day_of_year(doy: u32)
    requires
        doy <= 365,
    ensures
        ({
            let mp = (5 * doy + 2) / 153;
            &&& mp <= 11
            &&& (153 * mp + 2) / 5 <= doy
            &&& doy - (153 * mp + 2) / 5 + 1 <= 31
        }),
{
    assert({
        let mp = (5 * doy + 2) / 153;
        &&& mp <= 11
        &&& (153 * mp + 2) / 5 <= doy
        &&& doy - (153 * mp + 2) / 5 + 1 <= 31
    }) by (bit_vector)
        requires
            doy <= 365,
    ;
}

/// The date of day `z` after 1970-01-01, as Howard Hinnant's algorithm
/// gives it.
pub fn civil_from_days(z: i64) -> (r: (i64, u32, u32))
    requires
        z <= i64::MAX - 719468,
    ensures
        (r.0 as int, r.1 as int, r.2 as int) == civil(z as int),
        1 <= r.1 <= 12,
        1 <= r.2 <= 31,
{
    let zz = z + 719468;
    let era = if zz >= 0 {
        zz
    } else {
        zz - 146096
    } / 146097;
    proof {
        let q = (zz as int) / 146097;
        let rem = (zz as int) % 146097;
        vstd::arithmetic::div_mod::lemma_fundamental_div_mod(zz as int, 146097);
        if zz < 0 {
            vstd::arithmetic::div_mod::lemma_fundamental_div_mod_converse(
                146096 - zz,
                146097,
                -q,
                146096 - rem,
            );
        }
        assert(era == q);
    }
    let doe = (zz - era * 146097) as u64;
    proof {
        lemma_day_of_era(doe as u32);
    }
    let yoe = (doe - doe / 1460 + doe / 36524 - doe / 146096) / 365;
    let y = yoe as i64 + era * 400;
    let doy = doe - (365 * yoe + yoe / 4 - yoe / 100);
    proof {
        lemma_day_of_year(doy as u32);
    }
    let mp = (5 * doy + 2) / 153;
    let d = (doy - (153 * mp + 2) / 5 + 1) as u32;
    let m = if mp < 10 {
        mp + 3
    } else {
        mp - 9
    } as u32;
    (if m <= 2 {
        y + 1
    } else {
        y
    }, m, d)
}

// ---------------------------------------------------------------------------
// Dates.
// ---------------------------------------------------------------------------

/// `s` padded on the left with zeros to `width` characters.
pub open spec fn zero_pad(s: Seq<char>, width: nat) -> Seq<char> {
    if s.len() < width {
        Seq::new((width - s.len()) as nat, |i: int| '0') + s
    } else {
        s
    }
}

fn zero_pad_exec(s: Vec<char>, width: usize) -> (r: Vec<char>)
    ensures
        r@ == zero_pad(s@, width as nat),
{
    if s.len() >= width {
        return s;
    }
    let mut r: Vec<char> = Vec::new();
    let mut i: usize = 0;
    let pad = width - s.len();
    while i < pad
        invariant
            i <= pad,
            r@ == Seq::new(i as nat, |k: int| '0'),
        decreases pad - i,
    {
        r.push('0');
        assert(r@ =~= Seq::new((i + 1) as nat, |k: int| '0'));
        i += 1;
    }
    extend_from(&mut r, &s);
    r
}

/// The date `secs` seconds after the epoch, as `YYYYMMDD`.
pub open spec fn date_stamp_of(secs: u64) -> Seq<char> {
    let (y, m, d) = civil((secs / 86400) as int);
    zero_pad(dec(y as nat), 4) + zero_pad(dec(m as nat), 2) + zero_pad(dec(d as nat), 2)
}

/// The calendar date `YYYYMMDD` of a time given in seconds after the epoch.
pub fn date_stamp(secs: u64) -> (s: String)
    ensures
        s@ == date_stamp_of(secs),
{
    let days = secs / 86400;
    assert(days <= 213503982334601);
    let (y, m, d) = civil_from_days(days as i64);
    proof {
        let zz = days + 719468;
        assert(zz / 146097 >= 0) by (nonlinear_arith)
            requires
                zz >= 0,
        ;
    }
    assert(y >= 0) by {
        let zz = (days as int) + 719468;
        vstd::arithmetic::div_mod::lemma_fundamental_div_mod(zz, 146097);
    }
    let mut out = zero_pad_exec(u64_to_dec(y as u64), 4);
    extend_from(&mut out, &zero_pad_exec(u64_to_dec(m as u64), 2));
    extend_from(&mut out, &zero_pad_exec(u64_to_dec(d as u64), 2));
    string_from_chars(&out)
}

// ---------------------------------------------------------------------------
// Identifiers.
// ---------------------------------------------------------------------------

/// Sixteen random bytes from `rand::thread_rng().fill_bytes`.  Nothing is
/// stated of their values.
#[verifier::external_body]
pub fn new_id() -> [u8; 16] {
    let mut id = [0u8; 16];
    rand::thread_rng().fill_bytes(&mut id);
    id
}

/// The bytes with the version nibble set to 4 and the variant bits to `10`.
pub open spec fn v4_bytes(b: Seq<u8>) -> Seq<u8> {
    b.update(6, (b[6] & 0x0f) | 0x40).update(8, (b[8] & 0x3f) | 0x80)
}

/// The hyphenated form `8-4-4-4-12` of 32 hexadecimal digits.
pub open spec fn hyphenated(h: Seq<char>) -> Seq<char> {
    h.subrange(0, 8) + seq!['-'] + h.subrange(8, 12) + seq!['-'] + h.subrange(12, 16) + seq!['-']
        + h.subrange(16, 20) + seq!['-'] + h.subrange(20, 32)
}

/// A random (version 4) UUID in its usual text form.
pub open spec fn uuid_text(b: Seq<u8>) -> Seq<char> {
    hyphenated(hex_id(v4_bytes(b)))
}

/// The text of a version 4 UUID: 36 characters, hyphens at 8, 13, 18 and
/// 23, lowercase hexadecimal digits elsewhere, `4` at 14 and one of
/// `8 9 a b` at 19.
pub open spec fn is_uuid_v4_text(s: Seq<char>) -> bool {
    &&& s.len() == 36
    &&& forall|i: int|
        0 <= i < 36 ==> if i == 8 || i == 13 || i == 18 || i == 23 {
            s[i] == '-'
        } else {
            ('0' <= #[trigger] s[i] && s[i] <= '9') || ('a' <= s[i] && s[i] <= 'f')
        }
    &&& s[14] == '4'
    &&& s[19] == '8' || s[19] == '9' || s[19] == 'a' || s[19] == 'b'
}

/// Formats 16 bytes as a version 4 UUID.
pub fn uuid_v4_from_bytes(bytes: [u8; 16]) -> (s: String)
    ensures
        s@ == uuid_text(bytes@),
        is_uuid_v4_text(s@),
{
    let mut b = bytes;
    b[6] = (b[6] & 0x0f) | 0x40;
    b[8] = (b[8] & 0x3f) | 0x80;
    assert(b@ =~= v4_bytes(bytes@));
    let hex = chars_of(format_transfer_id(b).as_str());
    let mut out = sub_vec(&hex, 0, 8);
    out.push('-');
    extend_from(&mut out, &sub_vec(&hex, 8, 12));
    out.push('-');
    extend_from(&mut out, &sub_vec(&hex, 12, 16));
    out.push('-');
    extend_from(&mut out, &sub_vec(&hex, 16, 20));
    out.push('-');
    extend_from(&mut out, &sub_vec(&hex, 20, 32));
    assert(out@ =~= hyphenated(hex@));
    proof {
        let v = b@;
        let x6 = bytes[6];
        let x8 = bytes[8];
        assert(((x6 & 0x0f) | 0x40) / 16 == 4) by (bit_vector);
        assert(8 <= ((x8 & 0x3f) | 0x80) / 16 <= 11) by (bit_vector);
        let h = hex@;
        assert forall|i: int| 0 <= i < 32 implies ('0' <= #[trigger] h[i] && h[i] <= '9') || ('a'
            <= h[i] && h[i] <= 'f') by {
            let d = if i % 2 == 0 {
                v[i / 2] / 16
            } else {
                v[i / 2] % 16
            };
            assert(d < 16);
        }
        let u = out@;
        assert forall|i: int|
            0 <= i < 36 implies if i == 8 || i == 13 || i == 18 || i == 23 {
            u[i] == '-'
        } else {
            ('0' <= #[trigger] u[i] && u[i] <= '9') || ('a' <= u[i] && u[i] <= 'f')
        } by {
            if i < 8 {
                assert(u[i] == h[i]);
            } else if 8 < i < 13 {
                assert(u[i] == h[i - 1]);
            } else if 13 < i < 18 {
                assert(u[i] == h[i - 2]);
            } else if 18 < i < 23 {
                assert(u[i] == h[i - 3]);
            } else if 23 < i {
                assert(u[i] == h[i - 4]);
            }
        }
        assert(u[14] == h[12]);
        assert(u[19] == h[16]);
    }
    string_from_chars(&out)
}

/// A new random identifier in UUID version 4 form.
pub fn new_uuid_v4() -> (s: String)
    ensures
        is_uuid_v4_text(s@),
{
    uuid_v4_from_bytes(new_id())
}

/// A transfer identifier given as 32 hexadecimal digits.
pub fn parse_id(value: &str) -> (r: Result<[u8; 16], String>)
    ensures
        match crate::session::event::parse_id_bytes(encode_utf8(value@)) {
            None => r matches Err(e) && e@ == "Invalid transfer id"@,
            Some(id) => r matches Ok(a) && a@ == id,
        },
{
    match parse_transfer_id(value) {
        Some(id) => Ok(id),
        None => Err("Invalid transfer id".to_owned()),
    }
}

// ---------------------------------------------------------------------------
// Names.
// ---------------------------------------------------------------------------

/// The name to store a received file under: the sender's name, numbered
/// when a file of that name already exists.
pub fn unique_received_name(existing: &[String], candidate: &str) -> (r: String)
    requires
        existing@.len() < usize::MAX,
    ensures
        !crate::protocol::filename::name_set(existing@).contains(candidate@) ==> r@ == candidate@,
        crate::protocol::filename::name_set(existing@).contains(candidate@) ==> exists|k: nat|
            {
                &&& k >= 1
                &&& r@ == crate::protocol::filename::numbered_name(candidate@, k)
                &&& !crate::protocol::filename::name_set(existing@).contains(
                    crate::protocol::filename::numbered_name(candidate@, k),
                )
                &&& forall|j: nat|
                    1 <= j < k ==> crate::protocol::filename::name_set(existing@).contains(
                        #[trigger] crate::protocol::filename::numbered_name(candidate@, j),
                    )
            },
{
    generate_unique_filename(existing, candidate)
}

// ---------------------------------------------------------------------------
// Names reported by file pickers.
// ---------------------------------------------------------------------------

/// `%XY` escapes replaced by the byte they stand for; a `%` not followed by
/// two hexadecimal digits stays as it is.
pub open spec fn pct_decode(b: Seq<u8>) -> Seq<u8>
    decreases b.len(),
{
    if b.len() == 0 {
        Seq::empty()
    } else if b[0] == 37 && b.len() > 2 && hex_val(b[1]) is Some && hex_val(b[2]) is Some {
        seq![(hex_val(b[1])->0 * 16 + hex_val(b[2])->0) as u8] + pct_decode(b.subrange(3, b.len() as int))
    } else {
        seq![b[0]] + pct_decode(b.drop_first())
    }
}


fn hex_val_exec(c: u8) -> (r: Option<u8>)
    ensures
        r == hex_val(c),
{
    if 48 <= c && c <= 57 {
        Some(c - 48)
    } else if 97 <= c && c <= 102 {
        Some(c - 87)
    } else if 65 <= c && c <= 70 {
        Some(c - 55)
    } else {
        None
    }
}

/// Decodes `%XY` escapes; bytes that do not form UTF-8 become U+FFFD.
pub fn percent_decode(value: &str) -> (s: String)
    ensures
        s@ == utf8_lossy(pct_decode(encode_utf8(value@))),
{
    let bytes: &[u8] = value.as_bytes();
    let ghost b = bytes@;
    let mut decoded: Vec<u8> = Vec::new();
    let mut index: usize = 0;
    assert(b.subrange(0, b.len() as int) =~= b);
    while index < bytes.len()
        invariant
            index <= b.len(),
            bytes@ == b,
            decoded@ + pct_decode(b.subrange(index as int, b.len() as int)) == pct_decode(b),
        decreases b.len() - index,
    {
        let ghost rest = b.subrange(index as int, b.len() as int);
        if bytes[index] == 37 && bytes.len() - index > 2 {
            let high = hex_val_exec(bytes[index + 1]);
            let low = hex_val_exec(bytes[index + 2]);
            if let (Some(h), Some(l)) = (high, low) {
                assert(rest[1] == bytes[index + 1] && rest[2] == bytes[index + 2]);
                assert(rest.subrange(3, rest.len() as int) =~= b.subrange(index + 3, b.len() as int));
                decoded.push(h * 16 + l);
                assert(decoded@ + pct_decode(b.subrange(index + 3, b.len() as int)) =~= pct_decode(b)) by {
                    assert(pct_decode(rest) == seq![(h * 16 + l) as u8] + pct_decode(
                        rest.subrange(3, rest.len() as int),
                    ));
                }
                index += 3;
                continue;
            }
        }
        assert(rest.drop_first() =~= b.subrange(index + 1, b.len() as int));
        assert(pct_decode(rest) == seq![rest[0]] + pct_decode(rest.drop_first()));
        decoded.push(bytes[index]);
        assert(decoded@ + pct_decode(b.subrange(index + 1, b.len() as int)) =~= pct_decode(b));
        index += 1;
    }
    assert(b.subrange(b.len() as int, b.len() as int) =~= Seq::<u8>::empty());
    assert(decoded@ =~= pct_decode(b));
    from_utf8_lossy(&decoded)
}

/// Index of the last `/` or `\`, or -1.
pub open spec fn last_separator(s: Seq<char>) -> int {
    if last_index(s, '/') > last_index(s, '\\') {
        last_index(s, '/')
    } else {
        last_index(s, '\\')
    }
}

/// The name a picker's value stands for, before the emptiness check.
pub open spec fn picker_name_of(value: Seq<char>, content_uri: bool) -> Seq<char> {
    let decoded = utf8_lossy(pct_decode(encode_utf8(value)));
    let raw: Seq<char> = seq!['r', 'a', 'w', ':'];
    let v1 = if decoded.len() >= 4 && decoded.subrange(0, 4) == raw {
        decoded.subrange(4, decoded.len() as int)
    } else {
        decoded
    };
    let v2 = v1.subrange(last_separator(v1) + 1, v1.len() as int);
    let v3 = if first_index(v2, '?') >= 0 {
        v2.subrange(0, first_index(v2, '?'))
    } else {
        v2
    };
    let v4 = trim(v3);
    if content_uri {
        v4.subrange(last_index(v4, ':') + 1, v4.len() as int)
    } else {
        v4
    }
}

/// A file name from a picker's value: decoded, without a `raw:` prefix, a
/// directory or a query, trimmed, and for a `content://` value without its
/// document-id prefix; `None` when nothing is left.
pub fn normalize_picker_name_with_scheme(value: &str, content_uri: bool) -> (r: Option<String>)
    ensures
        picker_name_of(value@, content_uri).len() == 0 ==> r is None,
        picker_name_of(value@, content_uri).len() > 0 ==> (r matches Some(n) && n@ == picker_name_of(
            value@,
            content_uri,
        )),
{
    let decoded = chars_of(percent_decode(value).as_str());
    let raw = ['r', 'a', 'w', ':'];
    let v1 = if decoded.len() >= 4 && decoded[0] == 'r' && decoded[1] == 'a' && decoded[2] == 'w'
        && decoded[3] == ':' {
        assert(decoded@.subrange(0, 4) =~= raw@);
        sub_vec(&decoded, 4, decoded.len())
    } else {
        assert(decoded@.len() >= 4 ==> (decoded@.subrange(0, 4) == raw@ ==> (decoded@.subrange(
            0,
            4,
        )[0] == 'r' && decoded@.subrange(0, 4)[1] == 'a' && decoded@.subrange(0, 4)[2] == 'w'
            && decoded@.subrange(0, 4)[3] == ':')));
        assert(raw@ =~= seq!['r', 'a', 'w', ':']);
        sub_vec(&decoded, 0, decoded.len())
    };
    proof {
        assert(raw@ =~= seq!['r', 'a', 'w', ':']);
        if !(decoded@.len() >= 4 && decoded@.subrange(0, 4) == raw@) {
            assert(decoded@.subrange(0, decoded@.len() as int) =~= decoded@);
        }
        lemma_last_index(v1@, '/');
        lemma_last_index(v1@, '\\');
    }
    let slash = find_last(&v1, '/');
    let back = find_last(&v1, '\\');
    let start = match (slash, back) {
        (Some(a), Some(b)) => if a > b {
            a + 1
        } else {
            b + 1
        },
        (Some(a), None) => a + 1,
        (None, Some(b)) => b + 1,
        (None, None) => 0,
    };
    let v2 = sub_vec(&v1, start, v1.len());
    proof {
        lemma_first_index(v2@, '?');
    }
    let v3 = match find_first(&v2, '?') {
        Some(q) => sub_vec(&v2, 0, q),
        None => sub_vec(&v2, 0, v2.len()),
    };
    proof {
        if first_index(v2@, '?') < 0 {
            assert(v2@.subrange(0, v2@.len() as int) =~= v2@);
        }
    }
    let v4 = trim_chars(&v3);
    let n4 = v4.len();
    let v5 = if content_uri {
        proof {
            lemma_last_index(v4@, ':');
        }
        match find_last(&v4, ':') {
            Some(c) => sub_vec(&v4, c + 1, n4),
            None => {
                assert(v4@.subrange(0, n4 as int) =~= v4@);
                sub_vec(&v4, 0, n4)
            },
        }
    } else {
        v4
    };
    if v5.len() == 0 {
        None
    } else {
        Some(string_from_chars(&v5))
    }
}

/// `normalize_picker_name_with_scheme` for a value that is not a
/// `content://` URI.
pub fn normalize_picker_name(value: &str) -> (r: Option<String>)
    ensures
        picker_name_of(value@, false).len() == 0 ==> r is None,
        picker_name_of(value@, false).len() > 0 ==> (r matches Some(n) && n@ == picker_name_of(
            value@,
            false,
        )),
{
    normalize_picker_name_with_scheme(value, false)
}

// ---------------------------------------------------------------------------
// This endpoint.
// ---------------------------------------------------------------------------

/// The platform kind for an operating system name as `std::env::consts::OS`
/// spells it.
/// The name a picked file is sent under: the name the platform resolved,
/// else the last component of the picked path, else the name read from the
/// path's text (a `content://` address by the part after its last colon),
/// else `selected-file-` and the file's position counted from one.
pub open spec fn picked_file_name(
    path_file_name: Option<Seq<char>>,
    encoded: Seq<char>,
    index: nat,
    resolved_name: Option<Seq<char>>,
) -> Seq<char> {
    if resolved_name is Some && picker_name_of(resolved_name->0, false).len() > 0 {
        picker_name_of(resolved_name->0, false)
    } else if path_file_name is Some && picker_name_of(path_file_name->0, false).len() > 0 {
        picker_name_of(path_file_name->0, false)
    } else if picker_name_of(encoded, has_prefix(encoded, "content://"@)).len() > 0 {
        picker_name_of(encoded, has_prefix(encoded, "content://"@))
    } else {
        "selected-file-"@ + dec(index + 1)
    }
}

/// Names the `index`-th picked file (counted from zero).  `path_file_name`
/// is the last component of the picked path when it is a local path,
/// `encoded` the path or address as text, and `resolved_name` the name the
/// platform resolved for it, if any.
pub fn picker_file_name(
    path_file_name: Option<&str>,
    encoded: &str,
    index: usize,
    resolved_name: Option<&str>,
) -> (r: String)
    requires
        index < usize::MAX,
    ensures
        r@ == picked_file_name(
            match path_file_name {
                Some(n) => Some(n@),
                None => None,
            },
            encoded@,
            index as nat,
            match resolved_name {
                Some(n) => Some(n@),
                None => None,
            },
        ),
{
    if let Some(name) = resolved_name {
        if let Some(n) = normalize_picker_name(name) {
            return n;
        }
    }
    if let Some(name) = path_file_name {
        if let Some(n) = normalize_picker_name(name) {
            return n;
        }
    }
    let scheme = "content://";
    proof {
        reveal_strlit("content://");
    }
    let text = chars_of(encoded);
    let prefix = chars_of(scheme);
    let content_uri = crate::text::starts_with_chars(&text, &prefix);
    assert(content_uri == has_prefix(encoded@, "content://"@));
    if let Some(n) = normalize_picker_name_with_scheme(encoded, content_uri) {
        return n;
    }
    let fallback = "selected-file-";
    let mut out = chars_of(fallback);
    let digits = u64_to_dec((index + 1) as u64);
    extend_from(&mut out, &digits);
    assert(out@ =~= "selected-file-"@ + dec((index + 1) as nat));
    string_from_chars(&out)
}

/// Whether `path` is the location of one of the received items: only
/// files the service reported may be opened.
pub fn received_path_allowed(items: &[UiReceivedItem], path: &str) -> (b: bool)
    ensures
        b == exists|i: int| 0 <= i < items@.len() && #[trigger] items@[i].local_path_or_handle@ == path@,
{
    let mut i: usize = 0;
    while i < items.len()
        invariant
            i <= items@.len(),
            forall|k: int| 0 <= k < i ==> (#[trigger] items@[k]).local_path_or_handle@ != path@,
        decreases items@.len() - i,
    {
        if str_eq(items[i].local_path_or_handle.as_str(), path) {
            assert(items@[i as int].local_path_or_handle@ == path@);
            return true;
        }
        i += 1;
    }
    false
}

pub open spec fn platform_for(os: Seq<char>) -> PlatformKind {
    if os == "macos"@ {
        PlatformKind::MacOS
    } else if os == "windows"@ {
        PlatformKind::Windows
    } else if os == "ios"@ {
        PlatformKind::IOS
    } else if os == "android"@ {
        PlatformKind::Android
    } else if os == "linux"@ {
        PlatformKind::Linux
    } else {
        PlatformKind::Unknown
    }
}

/// The platform this application runs on, given the operating system's name.
pub fn current_platform(os: &str) -> (p: PlatformKind)
    ensures
        p == platform_for(os@),
{
    if str_eq(os, "macos") {
        PlatformKind::MacOS
    } else if str_eq(os, "windows") {
        PlatformKind::Windows
    } else if str_eq(os, "ios") {
        PlatformKind::IOS
    } else if str_eq(os, "android") {
        PlatformKind::Android
    } else if str_eq(os, "linux") {
        PlatformKind::Linux
    } else {
        PlatformKind::Unknown
    }
}

/// How this application describes itself to a peer.
pub fn local_peer_info(os: &str, app_version: String) -> (p: PeerInfo)
    ensures
        p.display_name@ == "Ponlet"@,
        p.platform == platform_for(os@).wire_code(),
        p.runtime == crate::protocol::control::RuntimeKind::Native.wire_code(),
        p.app_version@ == app_version@,
        p.browser_family is None,
{
    PeerInfo::new_native("Ponlet".to_owned(), current_platform(os), app_version)
}

/// Seconds since the Unix epoch by the system clock (0 if the clock is set
/// before it).  Nothing is stated of the value.
#[verifier::external_body]
pub fn unix_seconds() -> u64 {
    std::time::SystemTime::now()
        .duration_since(std::time::UNIX_EPOCH)
        .unwrap_or_default()
        .as_secs()
}

// ---------------------------------------------------------------------------
// Creating an invitation, step by step.
// ---------------------------------------------------------------------------

/// The error code shown when listening for a peer failed.
pub const LISTEN_FAILED_CODE: u32 = 1000;
/// The error code shown when the host side of the handshake failed.
pub const HANDSHAKE_FAILED_CODE: u32 = 1001;

/// What the outside work reports while an invitation is created.
#[derive(Debug, Clone, Copy, PartialEq, Eq, Structural)]
pub enum HostEvent {
    /// The previous session has been closed.
    PreviousClosed,
    /// Listening for a peer failed.
    ListenFailed,
    /// The listener is up.
    Listening,
    /// The invitation and its URL have been made.
    InvitationBuilt,
    /// Making the invitation URL failed.
    InvitationFailed,
    /// The handshake with the peer succeeded; `cancelled` is whether the
    /// session was cancelled meanwhile.
    HandshakeDone { cancelled: bool },
    /// The handshake failed; `cancelled` is whether the session was
    /// cancelled meanwhile, which closes the listener on purpose.
    HandshakeFailed { cancelled: bool },
}

/// What creating an invitation does next.
#[derive(Debug, Clone, Copy, PartialEq, Eq, Structural)]
pub enum HostAction {
    /// Show the booting state and start listening.
    EnterBooting,
    /// Stop with "Operation cancelled": another session has begun.
    Abort,
    /// Close the listener, then stop with "Operation cancelled".
    CloseAndAbort,
    /// Show an error with `code` and the reported message.
    ReportError { code: u32 },
    /// Draw a session id and secret and make the invitation URL.
    CreateInvitation,
    /// Register the session, show it as awaiting the peer until
    /// `expires_at`, and run the host side of the handshake.
    AwaitPeer { expires_at: u64 },
    /// Stop with the reported error, showing nothing new.
    Fail,
    /// Record the peer, show the connected session and accept its streams.
    Connected,
    /// Close the listener of a session that is no longer shown.
    CloseListener,
    Nothing,
}

/// The next step of creating an invitation at `now`, for an invitation that
/// lives `lifetime` seconds; `current` is whether this session is still the
/// one shown.
pub open spec fn host_invite_next(current: bool, event: HostEvent, now: u64, lifetime: u64) -> HostAction {
    match event {
        HostEvent::PreviousClosed => if current {
            HostAction::EnterBooting
        } else {
            HostAction::Abort
        },
        HostEvent::ListenFailed => HostAction::ReportError { code: LISTEN_FAILED_CODE },
        HostEvent::Listening => if current {
            HostAction::CreateInvitation
        } else {
            HostAction::CloseAndAbort
        },
        HostEvent::InvitationBuilt => if current {
            HostAction::AwaitPeer { expires_at: (now + lifetime) as u64 }
        } else {
            HostAction::CloseAndAbort
        },
        HostEvent::InvitationFailed => HostAction::Fail,
        HostEvent::HandshakeDone { cancelled } => if cancelled || !current {
            HostAction::CloseListener
        } else {
            HostAction::Connected
        },
        HostEvent::HandshakeFailed { cancelled } => if cancelled {
            HostAction::Nothing
        } else {
            HostAction::ReportError { code: HANDSHAKE_FAILED_CODE }
        },
    }
}

/// One decision while an invitation is created and its peer awaited.
pub fn host_invite_step(current: bool, event: HostEvent, now: u64, lifetime: u64) -> (a: HostAction)
    requires
        event is InvitationBuilt && current ==> now + lifetime <= u64::MAX,
    ensures
        a == host_invite_next(current, event, now, lifetime),
        a matches HostAction::AwaitPeer { expires_at } ==> expires_at == now + lifetime,
{
    match event {
        HostEvent::PreviousClosed => if current {
            HostAction::EnterBooting
        } else {
            HostAction::Abort
        },
        HostEvent::ListenFailed => HostAction::ReportError { code: LISTEN_FAILED_CODE },
        HostEvent::Listening => if current {
            HostAction::CreateInvitation
        } else {
            HostAction::CloseAndAbort
        },
        HostEvent::InvitationBuilt => if current {
            HostAction::AwaitPeer { expires_at: now + lifetime }
        } else {
            HostAction::CloseAndAbort
        },
        HostEvent::InvitationFailed => HostAction::Fail,
        HostEvent::HandshakeDone { cancelled } => if cancelled || !current {
            HostAction::CloseListener
        } else {
            HostAction::Connected
        },
        HostEvent::HandshakeFailed { cancelled } => if cancelled {
            HostAction::Nothing
        } else {
            HostAction::ReportError { code: HANDSHAKE_FAILED_CODE }
        },
    }
}

} // verus!
