//! Character and byte helpers shared by the protocol parsers.

use vstd::prelude::*;
use vstd::utf8::*;
use vstd::string::*;

verus! {

// ---------------------------------------------------------------------------
// Conversions between `str`, `String` and character vectors.
// ---------------------------------------------------------------------------

/// The characters of a string slice, in order.
pub fn chars_of(s: &str) -> (v: Vec<char>)
    ensures
        v@ == s@,
{
    let mut v: Vec<char> = Vec::new();
    for c in it: s.chars()
        invariant
            v@ == it.seq().take(it.index()),
            it.seq() == s@,
    {
        v.push(c);
    }
    v
}

/// `String::push`: appends one character.
#[verifier::external_body]
fn push_char(s: &mut String, c: char)
    ensures
        final(s)@ == old(s)@.push(c),
{
    s.push(c);
}

/// A string holding exactly the given characters.
pub fn string_from_chars(v: &[char]) -> (s: String)
    ensures
        s@ == v@,
{
    let mut s = String::new();
    let mut i: usize = 0;
    while i < v.len()
        invariant
            i <= v.len(),
            s@ == v@.take(i as int),
        decreases v.len() - i,
    {
        push_char(&mut s, v[i]);
        assert(v@.take(i as int + 1) == v@.take(i as int).push(v@[i as int]));
        i += 1;
    }
    assert(v@.take(v.len() as int) == v@);
    s
}

/// `std::str::from_utf8`: the text encoded by `bytes`, when they are valid UTF-8.
#[verifier::external_body]
pub(crate) fn decode_utf8_string(bytes: &[u8]) -> (res: Option<String>)
    ensures
        res is Some <==> valid_utf8(bytes@),
        res matches Some(s) ==> s@ == decode_utf8(bytes@),
{
    match std::str::from_utf8(bytes) {
        Ok(s) => Some(s.to_owned()),
        Err(_) => None,
    }
}

/// The text that `String::from_utf8_lossy` makes of `bytes`.
pub uninterp spec fn utf8_lossy(bytes: Seq<u8>) -> Seq<char>;

/// `String::from_utf8_lossy`, owned.  Claimed: the text is
/// `utf8_lossy(bytes)`, which for valid UTF-8 is the text the bytes encode.
#[verifier::external_body]
pub(crate) fn from_utf8_lossy(bytes: &[u8]) -> (s: String)
    ensures
        s@ == utf8_lossy(bytes@),
        valid_utf8(bytes@) ==> s@ == decode_utf8(bytes@),
{
    String::from_utf8_lossy(bytes).into_owned()
}

/// Number of bytes of the UTF-8 encoding of `chars`.
pub open spec fn utf8_len(chars: Seq<char>) -> nat {
    encode_utf8(chars).len()
}

/// Byte length of the UTF-8 encoding of the characters.
pub fn utf8_byte_len(v: &[char]) -> (n: usize)
    ensures
        n == utf8_len(v@),
{
    let s = string_from_chars(v);
    let t: &str = s.as_str();
    let b: &[u8] = t.as_bytes();
    b.len()
}

/// The elements `v[a..b]` as a new vector.
pub fn sub_vec<T: Copy>(v: &[T], a: usize, b: usize) -> (r: Vec<T>)
    requires
        a <= b <= v@.len(),
    ensures
        r@ == v@.subrange(a as int, b as int),
{
    let mut r: Vec<T> = Vec::new();
    let mut i = a;
    while i < b
        invariant
            a <= i <= b <= v@.len(),
            r@ == v@.subrange(a as int, i as int),
        decreases b - i,
    {
        r.push(v[i]);
        assert(v@.subrange(a as int, i + 1) == v@.subrange(a as int, i as int).push(v@[i as int]));
        i += 1;
    }
    r
}

/// Appends all elements of `src`.
pub fn extend_from<T: Copy>(out: &mut Vec<T>, src: &[T])
    ensures
        final(out)@ == old(out)@ + src@,
{
    let mut i: usize = 0;
    while i < src.len()
        invariant
            i <= src.len(),
            out@ == old(out)@ + src@.take(i as int),
        decreases src.len() - i,
    {
        out.push(src[i]);
        assert(src@.take(i + 1) == src@.take(i as int).push(src@[i as int]));
        i += 1;
    }
    assert(src@.take(src.len() as int) == src@);
}

/// Index of the last occurrence of `c`, or -1.
pub open spec fn last_index(s: Seq<char>, c: char) -> int
    decreases s.len(),
{
    if s.len() == 0 {
        -1
    } else if s.last() == c {
        s.len() - 1
    } else {
        last_index(s.drop_last(), c)
    }
}

pub proof fn lemma_last_index(s: Seq<char>, c: char)
    ensures
        -1 <= last_index(s, c) < s.len(),
        last_index(s, c) >= 0 ==> s[last_index(s, c)] == c,
        forall|k: int| last_index(s, c) < k < s.len() ==> s[k] != c,
    decreases s.len(),
{
    if s.len() > 0 && s.last() != c {
        lemma_last_index(s.drop_last(), c);
        assert forall|k: int| last_index(s, c) < k < s.len() implies s[k] != c by {
            if k < s.len() - 1 {
                assert(s[k] == s.drop_last()[k]);
            }
        }
    }
}

/// `Some(i)` for the last `c` at index `i`, `None` when there is none.
pub fn find_last(v: &[char], c: char) -> (r: Option<usize>)
    ensures
        match r {
            Some(i) => i == last_index(v@, c),
            None => last_index(v@, c) == -1,
        },
{
    let mut e: usize = v.len();
    assert(v@.take(v.len() as int) == v@);
    while e > 0 && v[e - 1] != c
        invariant
            e <= v.len(),
            last_index(v@, c) == last_index(v@.take(e as int), c),
        decreases e,
    {
        assert(v@.take(e as int).drop_last() == v@.take(e as int - 1));
        e -= 1;
    }
    if e == 0 {
        assert(v@.take(0) == Seq::<char>::empty());
        None
    } else {
        Some(e - 1)
    }
}

/// Index of the first occurrence of `c`, or -1.
pub open spec fn first_index(s: Seq<char>, c: char) -> int
    decreases s.len(),
{
    if s.len() == 0 {
        -1
    } else if s[0] == c {
        0
    } else if first_index(s.drop_first(), c) < 0 {
        -1
    } else {
        first_index(s.drop_first(), c) + 1
    }
}

pub proof fn lemma_first_index(s: Seq<char>, c: char)
    ensures
        -1 <= first_index(s, c) < s.len(),
        first_index(s, c) >= 0 ==> s[first_index(s, c)] == c,
        forall|k: int|
            0 <= k < s.len() && (first_index(s, c) < 0 || k < first_index(s, c)) ==> s[k] != c,
    decreases s.len(),
{
    if s.len() > 0 && s[0] != c {
        lemma_first_index(s.drop_first(), c);
        assert forall|k: int|
            0 <= k < s.len() && (first_index(s, c) < 0 || k < first_index(s, c)) implies s[k]
            != c by {
            if k > 0 {
                assert(s[k] == s.drop_first()[k - 1]);
            }
        }
    }
}

/// `Some(i)` for the first `c` at index `i`, `None` when there is none.
pub fn find_first(v: &[char], c: char) -> (r: Option<usize>)
    ensures
        match r {
            Some(i) => i == first_index(v@, c),
            None => first_index(v@, c) == -1,
        },
{
    let mut i: usize = 0;
    proof {
        lemma_first_index(v@, c);
    }
    while i < v.len()
        invariant
            i <= v.len(),
            -1 <= first_index(v@, c) < v@.len(),
            first_index(v@, c) >= 0 ==> v@[first_index(v@, c)] == c,
            forall|k: int|
                0 <= k < v@.len() && (first_index(v@, c) < 0 || k < first_index(v@, c)) ==> v@[k]
                    != c,
            forall|k: int| 0 <= k < i ==> v@[k] != c,
        decreases v.len() - i,
    {
        if v[i] == c {
            return Some(i);
        }
        i += 1;
    }
    None
}

/// Whether `s` begins with `p`.
pub open spec fn has_prefix(s: Seq<char>, p: Seq<char>) -> bool {
    p.len() <= s.len() && s.subrange(0, p.len() as int) == p
}

pub fn starts_with_chars(s: &[char], p: &[char]) -> (b: bool)
    ensures
        b == has_prefix(s@, p@),
{
    if p.len() > s.len() {
        return false;
    }
    let mut i: usize = 0;
    while i < p.len()
        invariant
            i <= p.len() <= s.len(),
            forall|k: int| 0 <= k < i ==> s@[k] == p@[k],
        decreases p.len() - i,
    {
        if s[i] != p[i] {
            assert(s@.subrange(0, p.len() as int)[i as int] != p@[i as int]);
            return false;
        }
        i += 1;
    }
    assert(s@.subrange(0, p.len() as int) =~= p@);
    true
}

/// Whether `c` occurs in `v`.
pub fn contains_char(v: &[char], c: char) -> (b: bool)
    ensures
        b == v@.contains(c),
{
    let mut i: usize = 0;
    while i < v.len()
        invariant
            i <= v.len(),
            forall|k: int| 0 <= k < i ==> v@[k] != c,
        decreases v.len() - i,
    {
        if v[i] == c {
            assert(v@[i as int] == c);
            return true;
        }
        i += 1;
    }
    false
}

/// Parses a `u64` as `str::parse::<u64>` does.
pub fn parse_u64_chars(s: &[char]) -> (r: Option<u64>)
    ensures
        r == parse_u64(s@),
{
    let start: usize = if s.len() > 0 && s[0] == '+' { 1 } else { 0 };
    let ghost d = if s@.len() > 0 && s@[0] == '+' { s@.drop_first() } else { s@ };
    assert(d == s@.skip(start as int));
    if start == s.len() {
        return None;
    }
    let mut v: u64 = 0;
    let mut i: usize = start;
    assert(s@.subrange(start as int, start as int) =~= Seq::<char>::empty());
    while i < s.len()
        invariant
            start <= i <= s.len(),
            d == s@.skip(start as int),
            d == (if s@.len() > 0 && s@[0] == '+' { s@.drop_first() } else { s@ }),
            d.len() > 0,
            all_digits(s@.subrange(start as int, i as int)),
            v == digits_value(s@.subrange(start as int, i as int)),
        decreases s.len() - i,
    {
        let c = s[i];
        if !('0' <= c && c <= '9') {
            assert(d[i - start] == c);
            assert(!is_digit(d[i - start]));
            return None;
        }
        let dv = (c as u32 - '0' as u32) as u64;
        let ghost next = s@.subrange(start as int, i + 1);
        assert(next.drop_last() =~= s@.subrange(start as int, i as int));
        assert(all_digits(next));
        if v > (u64::MAX - dv) / 10 {
            proof {
                assert(digits_value(next) == v * 10 + dv);
                assert(digits_value(next) > u64::MAX);
                if all_digits(d) {
                    assert(d.subrange(0, next.len() as int) =~= next);
                    lemma_digits_value_mono(d, next);
                }
            }
            return None;
        }
        v = v * 10 + dv;
        i += 1;
    }
    assert(s@.subrange(start as int, s@.len() as int) =~= d);
    Some(v)
}

/// A longer digit string that extends a shorter one has at least its value.
proof fn lemma_digits_value_mono(d: Seq<char>, p: Seq<char>)
    requires
        p.len() <= d.len(),
        d.subrange(0, p.len() as int) == p,
        all_digits(d),
    ensures
        digits_value(p) <= digits_value(d),
    decreases d.len(),
{
    if p.len() < d.len() {
        assert(d.drop_last().subrange(0, p.len() as int) =~= d.subrange(0, p.len() as int));
        assert(all_digits(d.drop_last())) by {
            assert forall|i: int| 0 <= i < d.drop_last().len() implies is_digit(#[trigger] d.drop_last()[i]) by {
                assert(d.drop_last()[i] == d[i]);
            }
        }
        lemma_digits_value_mono(d.drop_last(), p);
    } else {
        assert(d =~= p);
    }
}

/// Whether two strings hold the same characters.
pub fn str_eq(a: &str, b: &str) -> (r: bool)
    ensures
        r == (a@ == b@),
{
    let x = chars_of(a);
    let y = chars_of(b);
    if x.len() != y.len() {
        return false;
    }
    let mut i: usize = 0;
    while i < x.len()
        invariant
            i <= x.len() == y.len(),
            x@ == a@,
            y@ == b@,
            forall|k: int| 0 <= k < i ==> x@[k] == y@[k],
        decreases x.len() - i,
    {
        if x[i] != y[i] {
            assert(x@[i as int] != y@[i as int]);
            return false;
        }
        i += 1;
    }
    assert(x@ =~= y@);
    true
}

// ---------------------------------------------------------------------------
// Character classes as documented for `char`.
// ---------------------------------------------------------------------------

/// `char::is_whitespace`: the Unicode `White_Space` property.
pub open spec fn is_ws(c: char) -> bool {
    let u = c as u32;
    ||| u == 0x20
    ||| (0x09 <= u && u <= 0x0d)
    ||| u == 0x85
    ||| u == 0xa0
    ||| u == 0x1680
    ||| (0x2000 <= u && u <= 0x200a)
    ||| u == 0x2028
    ||| u == 0x2029
    ||| u == 0x202f
    ||| u == 0x205f
    ||| u == 0x3000
}

/// `char::is_control`: the general category `Cc`.
pub open spec fn is_ctrl(c: char) -> bool {
    let u = c as u32;
    u <= 0x1f || (0x7f <= u && u <= 0x9f)
}

pub fn char_is_whitespace(c: char) -> (b: bool)
    ensures
        b == is_ws(c),
{
    let u = c as u32;
    u == 0x20 || (0x09 <= u && u <= 0x0d) || u == 0x85 || u == 0xa0 || u == 0x1680 || (0x2000 <= u
        && u <= 0x200a) || u == 0x2028 || u == 0x2029 || u == 0x202f || u == 0x205f || u == 0x3000
}

pub fn char_is_control(c: char) -> (b: bool)
    ensures
        b == is_ctrl(c),
{
    let u = c as u32;
    u <= 0x1f || (0x7f <= u && u <= 0x9f)
}

/// `char::to_ascii_uppercase`.
pub open spec fn upper(c: char) -> char {
    if 'a' <= c && c <= 'z' {
        ((c as u32) - 32) as char
    } else {
        c
    }
}

pub fn char_to_upper(c: char) -> (r: char)
    ensures
        r == upper(c),
{
    if 'a' <= c && c <= 'z' {
        let u = (c as u32) - 32;
        assert(0x41 <= u <= 0x5a);
        proof {
            vstd::utf8::char_u32_cast(c, c as u32);
        }
        u as u8 as char
    } else {
        c
    }
}

pub open spec fn upper_seq(s: Seq<char>) -> Seq<char> {
    Seq::new(s.len(), |i: int| upper(s[i]))
}

pub fn to_ascii_uppercase(v: &[char]) -> (r: Vec<char>)
    ensures
        r@ == upper_seq(v@),
{
    let mut r: Vec<char> = Vec::new();
    let mut i: usize = 0;
    while i < v.len()
        invariant
            i <= v.len(),
            r@.len() == i,
            forall|k: int| 0 <= k < i ==> r@[k] == upper(v@[k]),
        decreases v.len() - i,
    {
        r.push(char_to_upper(v[i]));
        i += 1;
    }
    assert(r@ == upper_seq(v@));
    r
}

/// `char::to_ascii_lowercase`.
pub open spec fn lower(c: char) -> char {
    if 'A' <= c && c <= 'Z' {
        ((c as u32) + 32) as char
    } else {
        c
    }
}

pub fn char_to_lower(c: char) -> (r: char)
    ensures
        r == lower(c),
{
    if 'A' <= c && c <= 'Z' {
        let u = (c as u32) + 32;
        assert(0x61 <= u <= 0x7a);
        proof {
            vstd::utf8::char_u32_cast(c, c as u32);
        }
        u as u8 as char
    } else {
        c
    }
}

pub open spec fn lower_seq(s: Seq<char>) -> Seq<char> {
    Seq::new(s.len(), |i: int| lower(s[i]))
}

pub fn to_ascii_lowercase(v: &[char]) -> (r: Vec<char>)
    ensures
        r@ == lower_seq(v@),
{
    let mut r: Vec<char> = Vec::new();
    let mut i: usize = 0;
    while i < v.len()
        invariant
            i <= v.len(),
            r@.len() == i,
            forall|k: int| 0 <= k < i ==> r@[k] == lower(v@[k]),
        decreases v.len() - i,
    {
        r.push(char_to_lower(v[i]));
        i += 1;
    }
    assert(r@ == lower_seq(v@));
    r
}

/// Whether two character sequences are equal.
pub fn chars_eq(x: &[char], y: &[char]) -> (r: bool)
    ensures
        r == (x@ == y@),
{
    if x.len() != y.len() {
        return false;
    }
    let mut i: usize = 0;
    while i < x.len()
        invariant
            i <= x.len() == y.len(),
            forall|k: int| 0 <= k < i ==> x@[k] == y@[k],
        decreases x.len() - i,
    {
        if x[i] != y[i] {
            assert(x@[i as int] != y@[i as int]);
            return false;
        }
        i += 1;
    }
    assert(x@ =~= y@);
    true
}

/// Lexicographic order of character sequences by code point, the order of
/// `str` comparison.
pub open spec fn seq_lt(a: Seq<char>, b: Seq<char>) -> bool
    decreases a.len(),
{
    if a.len() == 0 {
        b.len() > 0
    } else if b.len() == 0 {
        false
    } else if a[0] != b[0] {
        (a[0] as u32) < (b[0] as u32)
    } else {
        seq_lt(a.drop_first(), b.drop_first())
    }
}

pub proof fn lemma_seq_lt_irreflexive(a: Seq<char>)
    ensures
        !seq_lt(a, a),
    decreases a.len(),
{
    if a.len() > 0 {
        lemma_seq_lt_irreflexive(a.drop_first());
    }
}

pub proof fn lemma_seq_lt_transitive(a: Seq<char>, b: Seq<char>, c: Seq<char>)
    requires
        seq_lt(a, b),
        seq_lt(b, c),
    ensures
        seq_lt(a, c),
    decreases a.len(),
{
    if a.len() > 0 && b.len() > 0 && c.len() > 0 {
        if a[0] == b[0] && b[0] == c[0] {
            lemma_seq_lt_transitive(a.drop_first(), b.drop_first(), c.drop_first());
        } else {
            vstd::utf8::char_u32_cast(a[0], a[0] as u32);
            vstd::utf8::char_u32_cast(b[0], b[0] as u32);
            vstd::utf8::char_u32_cast(c[0], c[0] as u32);
        }
    }
}

pub fn chars_lt(a: &[char], b: &[char]) -> (r: bool)
    ensures
        r == seq_lt(a@, b@),
{
    let mut i: usize = 0;
    assert(a@.skip(0) =~= a@);
    assert(b@.skip(0) =~= b@);
    while i < a.len() && i < b.len() && a[i] == b[i]
        invariant
            i <= a.len(),
            i <= b.len(),
            seq_lt(a@, b@) == seq_lt(a@.skip(i as int), b@.skip(i as int)),
        decreases a.len() - i,
    {
        assert(a@.skip(i as int).drop_first() =~= a@.skip(i + 1));
        assert(b@.skip(i as int).drop_first() =~= b@.skip(i + 1));
        i += 1;
    }
    if i == a.len() {
        i < b.len()
    } else if i == b.len() {
        false
    } else {
        assert(a@.skip(i as int)[0] == a@[i as int]);
        assert(b@.skip(i as int)[0] == b@[i as int]);
        (a[i] as u32) < (b[i] as u32)
    }
}

// ---------------------------------------------------------------------------
// Trimming.
// ---------------------------------------------------------------------------

/// `str::trim_start`: drops leading whitespace.
pub open spec fn trim_start(s: Seq<char>) -> Seq<char>
    decreases s.len(),
{
    if s.len() > 0 && is_ws(s[0]) {
        trim_start(s.drop_first())
    } else {
        s
    }
}

/// `str::trim_end`: drops trailing whitespace.
pub open spec fn trim_end(s: Seq<char>) -> Seq<char>
    decreases s.len(),
{
    if s.len() > 0 && is_ws(s.last()) {
        trim_end(s.drop_last())
    } else {
        s
    }
}

/// `str::trim`.
pub open spec fn trim(s: Seq<char>) -> Seq<char> {
    trim_end(trim_start(s))
}

pub fn trim_chars(v: &[char]) -> (r: Vec<char>)
    ensures
        r@ == trim(v@),
{
    let mut start: usize = 0;
    assert(v@.skip(0) == v@);
    while start < v.len() && char_is_whitespace(v[start])
        invariant
            start <= v.len(),
            trim_start(v@) == trim_start(v@.skip(start as int)),
        decreases v.len() - start,
    {
        assert(v@.skip(start as int).drop_first() == v@.skip(start as int + 1));
        start += 1;
    }
    let ghost t = v@.skip(start as int);
    assert(trim_start(v@) == t);
    let mut end: usize = v.len();
    while end > start && char_is_whitespace(v[end - 1])
        invariant
            start <= end <= v.len(),
            t == v@.skip(start as int),
            trim_end(t) == trim_end(v@.subrange(start as int, end as int)),
        decreases end,
    {
        assert(v@.subrange(start as int, end as int).drop_last() == v@.subrange(
            start as int,
            end as int - 1,
        ));
        end -= 1;
    }
    assert(v@.skip(start as int) == v@.subrange(start as int, v.len() as int));
    sub_vec(v, start, end)
}

// ---------------------------------------------------------------------------
// Decimal numbers.
// ---------------------------------------------------------------------------

pub open spec fn is_digit(c: char) -> bool {
    '0' <= c && c <= '9'
}

pub open spec fn digit_val(c: char) -> nat {
    ((c as u32) - ('0' as u32)) as nat
}

pub open spec fn digit_char(d: nat) -> char {
    ((d + 48) as u32) as char
}

/// The decimal spelling of `n`, without sign or leading zeros.
pub open spec fn dec(n: nat) -> Seq<char>
    decreases n,
{
    if n < 10 {
        seq![digit_char(n)]
    } else {
        dec(n / 10).push(digit_char(n % 10))
    }
}

pub open spec fn all_digits(s: Seq<char>) -> bool {
    forall|i: int| 0 <= i < s.len() ==> is_digit(#[trigger] s[i])
}

/// The value of a string of decimal digits.
pub open spec fn digits_value(s: Seq<char>) -> nat
    decreases s.len(),
{
    if s.len() == 0 {
        0
    } else {
        digits_value(s.drop_last()) * 10 + digit_val(s.last())
    }
}

/// `u64::from_str`: an optional `+`, then at least one digit, in range.
pub open spec fn parse_u64(s: Seq<char>) -> Option<u64> {
    let d = if s.len() > 0 && s[0] == '+' {
        s.drop_first()
    } else {
        s
    };
    if d.len() > 0 && all_digits(d) && digits_value(d) <= u64::MAX {
        Some(digits_value(d) as u64)
    } else {
        None
    }
}

proof fn lemma_digit_char(d: nat)
    requires
        d < 10,
    ensures
        is_digit(digit_char(d)),
        digit_val(digit_char(d)) == d,
{
    let u = (d + 48) as u32;
    assert(48 <= u <= 57);
    assert((u as char) as u32 == u) by {
        assert(u < 0xd800);
    }
}

pub proof fn lemma_dec(n: nat)
    ensures
        dec(n).len() > 0,
        all_digits(dec(n)),
        digits_value(dec(n)) == n,
        n < 10 ==> dec(n).len() == 1,
    decreases n,
{
    if n < 10 {
        lemma_digit_char(n);
        assert(dec(n).drop_last() =~= Seq::<char>::empty());
        assert(digits_value(Seq::<char>::empty()) == 0);
        assert(digits_value(dec(n)) == digits_value(dec(n).drop_last()) * 10 + digit_val(dec(n).last()));
    } else {
        lemma_dec(n / 10);
        lemma_digit_char(n % 10);
        assert(dec(n).drop_last() == dec(n / 10));
        assert(dec(n).last() == digit_char(n % 10));
        assert(digits_value(dec(n)) == digits_value(dec(n / 10)) * 10 + digit_val(digit_char(n % 10)));
        assert(n == (n / 10) * 10 + n % 10);
        assert forall|i: int| 0 <= i < dec(n).len() implies is_digit(#[trigger] dec(n)[i]) by {
            if i < dec(n).len() - 1 {
                assert(dec(n)[i] == dec(n / 10)[i]);
            }
        }
    }
}

/// Decimal spelling of a `u64`, as `u64::to_string` gives it.
pub fn u64_to_dec(n: u64) -> (r: Vec<char>)
    ensures
        r@ == dec(n as nat),
    decreases n,
{
    if n < 10 {
        let c = ((n as u8) + 48) as char;
        proof {
            lemma_digit_char(n as nat);
        }
        let mut r = Vec::new();
        r.push(c);
        assert(r@ == dec(n as nat));
        r
    } else {
        let mut r = u64_to_dec(n / 10);
        let d = (n % 10) as u8;
        r.push((d + 48) as char);
        r
    }
}

/// Decimal spelling of a `u128`, as `u128::to_string` gives it.
pub fn u128_to_dec(n: u128) -> (r: Vec<char>)
    ensures
        r@ == dec(n as nat),
    decreases n,
{
    if n < 10 {
        let c = ((n as u8) + 48) as char;
        proof {
            lemma_digit_char(n as nat);
        }
        let mut r = Vec::new();
        r.push(c);
        assert(r@ == dec(n as nat));
        r
    } else {
        let mut r = u128_to_dec(n / 10);
        let d = (n % 10) as u8;
        r.push((d + 48) as char);
        r
    }
}

/// A `String` holding the decimal spelling of `n`.
pub fn u128_to_string(n: u128) -> (s: String)
    ensures
        s@ == dec(n as nat),
{
    string_from_chars(&u128_to_dec(n))
}

} // verus!
