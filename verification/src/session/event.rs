//! Transfer identifiers and the stable vocabulary of terminal transfer reasons.

use vstd::prelude::*;
use vstd::utf8::{encode_utf8, is_ascii_chars, is_ascii_chars_encode_utf8};
use crate::text::{str_eq, string_from_chars};

verus! {

pub open spec fn hex_digit_char(d: u8) -> char {
    if d < 10 {
        ((48 + d) as u32) as char
    } else {
        ((87 + d) as u32) as char
    }
}

/// Lowercase hexadecimal spelling of `id`, two digits per byte.
pub open spec fn hex_id(id: Seq<u8>) -> Seq<char> {
    Seq::new(
        2 * id.len(),
        |i: int|
            if i % 2 == 0 {
                hex_digit_char(id[i / 2] / 16)
            } else {
                hex_digit_char(id[i / 2] % 16)
            },
    )
}

/// Value of an ASCII hexadecimal digit, either case.
pub open spec fn hex_val(c: u8) -> Option<u8> {
    if 48 <= c && c <= 57 {
        Some((c - 48) as u8)
    } else if 97 <= c && c <= 102 {
        Some((c - 87) as u8)
    } else if 65 <= c && c <= 70 {
        Some((c - 55) as u8)
    } else {
        None
    }
}

/// `u8::from_str_radix(pair, 16)` on a two-byte text: two digits, or `+`
/// and one digit.
pub open spec fn pair_value(a: u8, b: u8) -> Option<u8> {
    if a == 43 && hex_val(b) is Some {
        hex_val(b)
    } else if hex_val(a) is Some && hex_val(b) is Some {
        Some((hex_val(a)->0 * 16 + hex_val(b)->0) as u8)
    } else {
        None
    }
}

/// The identifier that `parse_transfer_id` reads from the UTF-8 bytes `b`.
pub open spec fn parse_id_bytes(b: Seq<u8>) -> Option<Seq<u8>> {
    if b.len() == 32 && forall|k: int| 0 <= k < 16 ==> #[trigger] pair_value(b[2 * k], b[2 * k + 1]) is Some {
        Some(Seq::new(16, |k: int| pair_value(b[2 * k], b[2 * k + 1])->0))
    } else {
        None
    }
}

fn hex_digit(d: u8) -> (c: char)
    requires
        d < 16,
    ensures
        c == hex_digit_char(d),
{
    if d < 10 {
        (48 + d) as char
    } else {
        (87 + d) as char
    }
}

/// Stable lowercase identifier used in snapshots and UI events.
pub fn format_transfer_id(id: [u8; 16]) -> (s: String)
    ensures
        s@ == hex_id(id@),
{
    let mut v: Vec<char> = Vec::new();
    let mut i: usize = 0;
    while i < 16
        invariant
            i <= 16,
            id@.len() == 16,
            v@.len() == 2 * i,
            forall|k: int| 0 <= k < 2 * i ==> v@[k] == hex_id(id@)[k],
        decreases 16 - i,
    {
        let b = id[i];
        v.push(hex_digit(b / 16));
        v.push(hex_digit(b % 16));
        proof {
            assert(hex_id(id@)[2 * i as int] == hex_digit_char(id@[i as int] / 16)) by {
                assert((2 * i as int) / 2 == i as int);
            }
            assert(hex_id(id@)[2 * i as int + 1] == hex_digit_char(id@[i as int] % 16)) by {
                assert((2 * i as int + 1) / 2 == i as int);
            }
        }
        i += 1;
    }
    assert(v@ =~= hex_id(id@));
    string_from_chars(&v)
}

fn hex_value(c: u8) -> (r: Option<u8>)
    ensures
        r == hex_val(c),
{
    if 48 <= c && c <= 57 {
        Some(c - 48)
    } else if 97 <= c && c <= 102 {
        Some(c - 87)
    } else if 65 <= c && c <= 70 {
        Some(c - 55)
    } else {
        None
    }
}

/// Parses a transfer identifier: 32 bytes, each pair a hexadecimal byte
/// (either case, optionally written as `+` and one digit).
pub fn parse_transfer_id(value: &str) -> (r: Option<[u8; 16]>)
    ensures
        match parse_id_bytes(encode_utf8(value@)) {
            None => r is None,
            Some(id) => r matches Some(a) && a@ == id,
        },
{
    let b: &[u8] = value.as_bytes();
    assert(b@ == encode_utf8(value@));
    if b.len() != 32 {
        return None;
    }
    let mut id = [0u8; 16];
    let mut i: usize = 0;
    while i < 16
        invariant
            i <= 16,
            b@.len() == 32,
            b@ == encode_utf8(value@),
            id@.len() == 16,
            forall|k: int| 0 <= k < i ==> #[trigger] pair_value(b@[2 * k], b@[2 * k + 1]) is Some
                && id@[k] == pair_value(b@[2 * k], b@[2 * k + 1])->0,
        decreases 16 - i,
    {
        let hi = b[2 * i];
        let lo = b[2 * i + 1];
        let v = if hi == 43 {
            match hex_value(lo) {
                Some(l) => l,
                None => {
                    assert(pair_value(b@[2 * i as int], b@[2 * i as int + 1]) is None);
                    assert(parse_id_bytes(b@) is None);
                    return None;
                },
            }
        } else {
            match (hex_value(hi), hex_value(lo)) {
                (Some(h), Some(l)) => h * 16 + l,
                _ => {
                    assert(pair_value(b@[2 * i as int], b@[2 * i as int + 1]) is None);
                    assert(parse_id_bytes(b@) is None);
                    return None;
                },
            }
        };
        id[i] = v;
        i += 1;
    }
    assert(id@ =~= Seq::new(16, |k: int| pair_value(b@[2 * k], b@[2 * k + 1])->0));
    Some(id)
}

/// Parsing the formatted identifier gives back the identifier.
pub proof fn transfer_id_roundtrip(id: Seq<u8>)
    requires
        id.len() == 16,
    ensures
        parse_id_bytes(encode_utf8(hex_id(id))) == Some(id),
{
    let h = hex_id(id);
    assert(is_ascii_chars(h)) by {
        assert forall|i: int| 0 <= i < h.len() implies '\0' <= #[trigger] h[i] <= '\u{7f}' by {
            let d = if i % 2 == 0 { id[i / 2] / 16 } else { id[i / 2] % 16 };
            assert(h[i] == hex_digit_char(d));
            assert(d < 16);
        }
    }
    is_ascii_chars_encode_utf8(h);
    let b = encode_utf8(h);
    assert forall|k: int| 0 <= k < 16 implies #[trigger] pair_value(b[2 * k], b[2 * k + 1]) == Some(id[k]) by {
        assert((2 * k) / 2 == k);
        assert((2 * k + 1) / 2 == k);
        assert((2 * k) % 2 == 0);
        assert((2 * k + 1) % 2 == 1);
        assert(h[2 * k] == hex_digit_char(id[k] / 16));
        assert(h[2 * k + 1] == hex_digit_char(id[k] % 16));
        assert(b[2 * k] == h[2 * k] as u8);
        assert(b[2 * k + 1] == h[2 * k + 1] as u8);
    }
    assert(Seq::new(16, |k: int| pair_value(b[2 * k], b[2 * k + 1])->0) =~= id);
}

/// Reason of a transfer stopped by the local user.
pub const TRANSFER_CANCELLED_BY_USER: &'static str = "Transfer cancelled by user";
/// Reason of a transfer stopped by the peer.
pub const TRANSFER_CANCELLED_BY_PEER: &'static str = "Transfer cancelled by peer";
/// Reason reported when the transport cancelled the operation.
pub const TRANSFER_CANCELLED_BY_TRANSPORT: &'static str = "Operation cancelled";

/// Whether `reason` is one of the three cancellation reasons.
pub open spec fn is_cancel_reason(reason: Seq<char>) -> bool {
    reason == TRANSFER_CANCELLED_BY_USER@ || reason == TRANSFER_CANCELLED_BY_PEER@ || reason
        == TRANSFER_CANCELLED_BY_TRANSPORT@
}

/// Terminal status of a transfer stopped for `reason`.
pub open spec fn reason_status(reason: Seq<char>) -> Seq<char> {
    if is_cancel_reason(reason) {
        "cancelled"@
    } else {
        "failed"@
    }
}

/// Telemetry category of a stop reason.
pub open spec fn reason_category(reason: Seq<char>) -> Seq<char> {
    if reason == TRANSFER_CANCELLED_BY_USER@ {
        "user"@
    } else if is_cancel_reason(reason) {
        "peer"@
    } else {
        "error"@
    }
}

/// Terminal status shown for a stopped transfer: `cancelled` for the three
/// cancellation reasons, `failed` for anything else.
pub fn transfer_status_for_reason(reason: &str) -> (r: &'static str)
    ensures
        r@ == reason_status(reason@),
{
    if str_eq(reason, TRANSFER_CANCELLED_BY_USER) || str_eq(reason, TRANSFER_CANCELLED_BY_PEER)
        || str_eq(reason, TRANSFER_CANCELLED_BY_TRANSPORT) {
        "cancelled"
    } else {
        "failed"
    }
}

/// Telemetry category of a stop reason: `user`, `peer` (peer or transport
/// cancellation) or `error`.
pub fn transfer_telemetry_reason(reason: &str) -> (r: &'static str)
    ensures
        r@ == reason_category(reason@),
{
    if str_eq(reason, TRANSFER_CANCELLED_BY_USER) {
        "user"
    } else if str_eq(reason, TRANSFER_CANCELLED_BY_PEER) || str_eq(
        reason,
        TRANSFER_CANCELLED_BY_TRANSPORT,
    ) {
        "peer"
    } else {
        "error"
    }
}

} // verus!
