//! Sanitizing file names received from a peer, and choosing a free name.

use vstd::prelude::*;
use crate::text::{
    char_is_control, char_is_whitespace, chars_of, dec, lemma_dec, is_ctrl, is_ws, string_from_chars, sub_vec,
    to_ascii_uppercase, trim, trim_chars, trim_end, trim_start, upper_seq, utf8_byte_len, utf8_len,
};
use crate::protocol::limits::MAX_FILENAME_BYTES;

verus! {

#[derive(Debug)]
pub enum FilenameError {
    EmptyFilename,
    InvalidCharacters,
    ReservedName,
    FilenameTooLong(usize),
}

pub open spec fn is_sep(c: char) -> bool {
    c == '/' || c == '\\'
}

/// The fallback name used when nothing usable is left.
pub open spec fn unnamed() -> Seq<char> {
    seq!['u', 'n', 'n', 'a', 'm', 'e', 'd', '_', 'f', 'i', 'l', 'e']
}

/// Removes a leading drive designator such as `C:`.  (A colon as the second
/// byte of the UTF-8 text means a one-byte first character followed by `:`.)
pub open spec fn strip_drive(s: Seq<char>) -> Seq<char> {
    if s.len() >= 2 && (s[0] as u32) < 128 && s[1] == ':' {
        s.skip(2)
    } else {
        s
    }
}

pub open spec fn strip_trailing_seps(s: Seq<char>) -> Seq<char>
    decreases s.len(),
{
    if s.len() > 0 && is_sep(s.last()) {
        strip_trailing_seps(s.drop_last())
    } else {
        s
    }
}

/// The characters after the last separator.
pub open spec fn after_last_sep(s: Seq<char>) -> Seq<char>
    decreases s.len(),
{
    if s.len() == 0 {
        s
    } else if is_sep(s.last()) {
        Seq::empty()
    } else {
        after_last_sep(s.drop_last()).push(s.last())
    }
}

/// The last non-empty path segment, or `s` itself when there is none.
pub open spec fn basename(s: Seq<char>) -> Seq<char> {
    let t = strip_trailing_seps(s);
    if t.len() == 0 {
        s
    } else {
        after_last_sep(t)
    }
}

pub open spec fn keep_printable(s: Seq<char>) -> Seq<char>
    decreases s.len(),
{
    if s.len() == 0 {
        s
    } else {
        let r = keep_printable(s.drop_last());
        if is_ctrl(s.last()) {
            r
        } else {
            r.push(s.last())
        }
    }
}

/// Characters that Windows refuses in file names.
pub open spec fn is_forbidden_char(c: char) -> bool {
    c == '<' || c == '>' || c == ':' || c == '"' || c == '/' || c == '\\' || c == '|' || c == '?'
        || c == '*'
}

pub open spec fn replace_forbidden(s: Seq<char>) -> Seq<char> {
    Seq::new(s.len(), |i: int| if is_forbidden_char(s[i]) { '_' } else { s[i] })
}

pub open spec fn trim_end_dots_ws(s: Seq<char>) -> Seq<char>
    decreases s.len(),
{
    if s.len() > 0 && (s.last() == '.' || is_ws(s.last())) {
        trim_end_dots_ws(s.drop_last())
    } else {
        s
    }
}

/// The part before the first `.`.
pub open spec fn stem(s: Seq<char>) -> Seq<char>
    decreases s.len(),
{
    if s.len() == 0 || s[0] == '.' {
        Seq::empty()
    } else {
        seq![s[0]] + stem(s.drop_first())
    }
}

/// Windows device names: CON, PRN, AUX, NUL, COM1-9 and LPT1-9.
pub open spec fn is_reserved_stem(u: Seq<char>) -> bool {
    ||| u == seq!['C', 'O', 'N']
    ||| u == seq!['P', 'R', 'N']
    ||| u == seq!['A', 'U', 'X']
    ||| u == seq!['N', 'U', 'L']
    ||| (u.len() == 4 && ((u[0] == 'C' && u[1] == 'O' && u[2] == 'M') || (u[0] == 'L' && u[1]
        == 'P' && u[2] == 'T')) && '1' <= u[3] && u[3] <= '9')
}

pub open spec fn is_dot_name(b: Seq<char>) -> bool {
    b == seq!['.'] || b == seq!['.', '.']
}

/// The name that `sanitize_filename` settles on, before its length check.
pub open spec fn sanitized_name(raw: Seq<char>) -> Seq<char> {
    let t = trim(raw);
    if t.len() == 0 {
        unnamed()
    } else {
        let b = basename(strip_drive(t));
        if is_dot_name(b) {
            unnamed()
        } else {
            let c = trim(trim_end_dots_ws(replace_forbidden(keep_printable(b))));
            if c.len() == 0 {
                unnamed()
            } else if is_reserved_stem(upper_seq(stem(c))) {
                seq!['_'] + c
            } else {
                c
            }
        }
    }
}

/// What `sanitize_filename` returns for `raw`.
pub open spec fn sanitize_result(raw: Seq<char>) -> Result<Seq<char>, nat> {
    let n = sanitized_name(raw);
    if utf8_len(n) > MAX_FILENAME_BYTES {
        Err(utf8_len(n))
    } else {
        Ok(n)
    }
}

fn strip_drive_exec(v: &[char]) -> (r: Vec<char>)
    ensures
        r@ == strip_drive(v@),
{
    if v.len() >= 2 && (v[0] as u32) < 128 && v[1] == ':' {
        sub_vec(v, 2, v.len())
    } else {
        sub_vec(v, 0, v.len())
    }
}

fn basename_exec(v: &[char]) -> (r: Vec<char>)
    ensures
        r@ == basename(v@),
{
    let mut e: usize = v.len();
    assert(v@.take(v.len() as int) == v@);
    while e > 0 && (v[e - 1] == '/' || v[e - 1] == '\\')
        invariant
            e <= v.len(),
            strip_trailing_seps(v@) == strip_trailing_seps(v@.take(e as int)),
        decreases e,
    {
        assert(v@.take(e as int).drop_last() == v@.take(e as int - 1));
        e -= 1;
    }
    assert(strip_trailing_seps(v@) == v@.take(e as int));
    if e == 0 {
        return sub_vec(v, 0, v.len());
    }
    let mut st: usize = e;
    assert(v@.subrange(e as int, e as int) == Seq::<char>::empty());
    while st > 0 && !(v[st - 1] == '/' || v[st - 1] == '\\')
        invariant
            st <= e <= v.len(),
            after_last_sep(v@.take(e as int)) == after_last_sep(v@.take(st as int)) + v@.subrange(
                st as int,
                e as int,
            ),
        decreases st,
    {
        assert(v@.take(st as int).drop_last() == v@.take(st as int - 1));
        assert(v@.take(st as int).last() == v@[st - 1]);
        assert(v@.subrange(st - 1, e as int) == seq![v@[st - 1]] + v@.subrange(st as int, e as int));
        st -= 1;
    }
    if st == 0 {
        assert(v@.take(0) == Seq::<char>::empty());
    } else {
        assert(v@.take(st as int).last() == v@[st - 1]);
    }
    assert(after_last_sep(v@.take(st as int)) == Seq::<char>::empty());
    assert(Seq::<char>::empty() + v@.subrange(st as int, e as int) == v@.subrange(st as int, e as int));
    sub_vec(v, st, e)
}

fn keep_printable_exec(v: &[char]) -> (r: Vec<char>)
    ensures
        r@ == keep_printable(v@),
{
    let mut r: Vec<char> = Vec::new();
    let mut i: usize = 0;
    assert(v@.take(0) == Seq::<char>::empty());
    while i < v.len()
        invariant
            i <= v.len(),
            r@ == keep_printable(v@.take(i as int)),
        decreases v.len() - i,
    {
        assert(v@.take(i + 1).drop_last() == v@.take(i as int));
        assert(v@.take(i + 1).last() == v@[i as int]);
        if !char_is_control(v[i]) {
            r.push(v[i]);
        }
        i += 1;
    }
    assert(v@.take(v.len() as int) == v@);
    r
}

fn replace_forbidden_exec(v: &[char]) -> (r: Vec<char>)
    ensures
        r@ == replace_forbidden(v@),
{
    let mut r: Vec<char> = Vec::new();
    let mut i: usize = 0;
    while i < v.len()
        invariant
            i <= v.len(),
            r@.len() == i,
            forall|k: int|
                0 <= k < i ==> r@[k] == (if is_forbidden_char(v@[k]) {
                    '_'
                } else {
                    v@[k]
                }),
        decreases v.len() - i,
    {
        let c = v[i];
        if c == '<' || c == '>' || c == ':' || c == '"' || c == '/' || c == '\\' || c == '|' || c
            == '?' || c == '*' {
            r.push('_');
        } else {
            r.push(c);
        }
        i += 1;
    }
    assert(r@ == replace_forbidden(v@));
    r
}

fn trim_end_dots_ws_exec(v: &[char]) -> (r: Vec<char>)
    ensures
        r@ == trim_end_dots_ws(v@),
{
    let mut e: usize = v.len();
    assert(v@.take(v.len() as int) == v@);
    while e > 0 && (v[e - 1] == '.' || char_is_whitespace(v[e - 1]))
        invariant
            e <= v.len(),
            trim_end_dots_ws(v@) == trim_end_dots_ws(v@.take(e as int)),
        decreases e,
    {
        assert(v@.take(e as int).drop_last() == v@.take(e as int - 1));
        e -= 1;
    }
    sub_vec(v, 0, e)
}

proof fn lemma_stem_split(s: Seq<char>, i: int)
    requires
        0 <= i <= s.len(),
        forall|k: int| 0 <= k < i ==> s[k] != '.',
    ensures
        stem(s) == s.take(i) + stem(s.skip(i)),
    decreases i,
{
    if i > 0 {
        lemma_stem_split(s.drop_first(), i - 1);
        assert(s.drop_first().take(i - 1) == s.take(i).drop_first());
        assert(s.drop_first().skip(i - 1) == s.skip(i));
        assert(s.take(i) == seq![s[0]] + s.take(i).drop_first());
    } else {
        assert(s.skip(0) == s);
    }
}

fn stem_exec(v: &[char]) -> (r: Vec<char>)
    ensures
        r@ == stem(v@),
{
    let mut i: usize = 0;
    while i < v.len() && v[i] != '.'
        invariant
            i <= v.len(),
            forall|k: int| 0 <= k < i ==> v@[k] != '.',
        decreases v.len() - i,
    {
        i += 1;
    }
    proof {
        lemma_stem_split(v@, i as int);
        assert(stem(v@.skip(i as int)) == Seq::<char>::empty());
        assert(v@.take(i as int) + Seq::<char>::empty() == v@.take(i as int));
    }
    sub_vec(v, 0, i)
}

fn is_reserved_stem_exec(u: &[char]) -> (b: bool)
    ensures
        b == is_reserved_stem(u@),
{
    if u.len() == 3 {
        let r = (u[0] == 'C' && u[1] == 'O' && u[2] == 'N') || (u[0] == 'P' && u[1] == 'R' && u[2]
            == 'N') || (u[0] == 'A' && u[1] == 'U' && u[2] == 'X') || (u[0] == 'N' && u[1] == 'U'
            && u[2] == 'L');
        proof {
            if u@[0] == 'C' && u@[1] == 'O' && u@[2] == 'N' {
                assert(u@ =~= seq!['C', 'O', 'N']);
            }
            if u@[0] == 'P' && u@[1] == 'R' && u@[2] == 'N' {
                assert(u@ =~= seq!['P', 'R', 'N']);
            }
            if u@[0] == 'A' && u@[1] == 'U' && u@[2] == 'X' {
                assert(u@ =~= seq!['A', 'U', 'X']);
            }
            if u@[0] == 'N' && u@[1] == 'U' && u@[2] == 'L' {
                assert(u@ =~= seq!['N', 'U', 'L']);
            }
        }
        r
    } else if u.len() == 4 {
        ((u[0] == 'C' && u[1] == 'O' && u[2] == 'M') || (u[0] == 'L' && u[1] == 'P' && u[2]
            == 'T')) && '1' <= u[3] && u[3] <= '9'
    } else {
        false
    }
}

fn unnamed_exec() -> (r: Vec<char>)
    ensures
        r@ == unnamed(),
{
    let r = vec!['u', 'n', 'n', 'a', 'm', 'e', 'd', '_', 'f', 'i', 'l', 'e'];
    assert(r@ == unnamed());
    r
}

/// The characters of the sanitized name for `raw`.
pub fn sanitized_name_exec(raw: &[char]) -> (r: Vec<char>)
    ensures
        r@ == sanitized_name(raw@),
{
    let t = trim_chars(raw);
    if t.len() == 0 {
        return unnamed_exec();
    }
    let d = strip_drive_exec(&t);
    let b = basename_exec(&d);
    let is_dot = (b.len() == 1 && b[0] == '.') || (b.len() == 2 && b[0] == '.' && b[1] == '.');
    proof {
        if b@.len() == 1 && b@[0] == '.' {
            assert(b@ =~= seq!['.']);
        }
        if b@.len() == 2 && b@[0] == '.' && b@[1] == '.' {
            assert(b@ =~= seq!['.', '.']);
        }
    }
    if is_dot {
        return unnamed_exec();
    }
    let k = keep_printable_exec(&b);
    let rep = replace_forbidden_exec(&k);
    let e = trim_end_dots_ws_exec(&rep);
    let c = trim_chars(&e);
    if c.len() == 0 {
        return unnamed_exec();
    }
    let st = stem_exec(&c);
    let up = to_ascii_uppercase(&st);
    if is_reserved_stem_exec(&up) {
        let mut r: Vec<char> = Vec::new();
        r.push('_');
        let mut i: usize = 0;
        while i < c.len()
            invariant
                i <= c.len(),
                r@ == seq!['_'] + c@.take(i as int),
            decreases c.len() - i,
        {
            r.push(c[i]);
            assert(c@.take(i + 1) == c@.take(i as int).push(c@[i as int]));
            i += 1;
        }
        assert(c@.take(c.len() as int) == c@);
        r
    } else {
        c
    }
}

/// Reduces a peer-supplied name to one safe file name: the last path
/// segment, without drive letters, control characters, characters that
/// Windows refuses, trailing dots and surrounding whitespace; Windows device
/// names get a `_` prefix and nothing usable becomes `unnamed_file`.
pub fn sanitize_filename(raw_name: &str) -> (res: Result<String, FilenameError>)
    ensures
        match sanitize_result(raw_name@) {
            Ok(n) => res matches Ok(s) && s@ == n,
            Err(len) => res matches Err(FilenameError::FilenameTooLong(l)) && l == len,
        },
{
    let raw = chars_of(raw_name);
    let name = sanitized_name_exec(&raw);
    let len = utf8_byte_len(&name);
    if len > MAX_FILENAME_BYTES {
        return Err(FilenameError::FilenameTooLong(len));
    }
    Ok(string_from_chars(&name))
}


// ---------------------------------------------------------------------------
// Choosing a name that is not taken yet.
// ---------------------------------------------------------------------------

/// The names taken, as character sequences.
pub open spec fn name_set(existing: Seq<String>) -> Set<Seq<char>> {
    existing.map_values(|s: String| s@).to_set()
}

/// Index of the last `.`, or -1.
pub open spec fn last_dot(s: Seq<char>) -> int
    decreases s.len(),
{
    if s.len() == 0 {
        -1
    } else if s.last() == '.' {
        s.len() - 1
    } else {
        last_dot(s.drop_last())
    }
}

/// The name without its extension (a leading dot starts no extension).
pub open spec fn name_stem(s: Seq<char>) -> Seq<char> {
    if last_dot(s) <= 0 {
        s
    } else {
        s.take(last_dot(s))
    }
}

/// The extension including its dot, or nothing.
pub open spec fn name_ext(s: Seq<char>) -> Seq<char> {
    if last_dot(s) <= 0 {
        Seq::empty()
    } else {
        s.skip(last_dot(s))
    }
}

/// `stem (k)ext`, the `k`-th alternative for `candidate`.
pub open spec fn numbered_name(candidate: Seq<char>, k: nat) -> Seq<char> {
    name_stem(candidate) + seq![' ', '('] + dec(k) + seq![')'] + name_ext(candidate)
}

proof fn lemma_last_dot(s: Seq<char>)
    ensures
        -1 <= last_dot(s) < s.len(),
        last_dot(s) >= 0 ==> s[last_dot(s)] == '.',
    decreases s.len(),
{
    if s.len() > 0 && s.last() != '.' {
        lemma_last_dot(s.drop_last());
    }
}

proof fn lemma_numbered_injective(c: Seq<char>, j: nat, k: nat)
    requires
        numbered_name(c, j) == numbered_name(c, k),
    ensures
        j == k,
{
    let st = name_stem(c);
    let ex = name_ext(c);
    let a = numbered_name(c, j);
    let b = numbered_name(c, k);
    assert(a.len() == st.len() + 2 + dec(j).len() + 1 + ex.len());
    assert(b.len() == st.len() + 2 + dec(k).len() + 1 + ex.len());
    assert(dec(j).len() == dec(k).len());
    assert(dec(j) =~= a.subrange(st.len() + 2int, st.len() + 2 + dec(j).len() as int));
    assert(dec(k) =~= b.subrange(st.len() + 2int, st.len() + 2 + dec(k).len() as int));
    lemma_dec(j);
    lemma_dec(k);
}

/// Every one of the first `m` alternatives is taken, so the set holds at
/// least `m` names.
proof fn lemma_taken_bound(c: Seq<char>, m: nat, s: Set<Seq<char>>)
    requires
        s.finite(),
        forall|j: nat| 1 <= j <= m ==> s.contains(#[trigger] numbered_name(c, j)),
    ensures
        m <= s.len(),
    decreases m,
{
    if m > 0 {
        let s2 = s.remove(numbered_name(c, m));
        assert forall|j: nat| 1 <= j <= (m - 1) as nat implies s2.contains(
            #[trigger] numbered_name(c, j),
        ) by {
            if numbered_name(c, j) == numbered_name(c, m) {
                lemma_numbered_injective(c, j, m);
            }
        }
        lemma_taken_bound(c, (m - 1) as nat, s2);
        vstd::set::axiom_set_remove_len(s, numbered_name(c, m));
    }
}

fn contains_name(existing: &[String], name: &String) -> (b: bool)
    ensures
        b == name_set(existing@).contains(name@),
{
    let ghost views = existing@.map_values(|s: String| s@);
    let mut i: usize = 0;
    while i < existing.len()
        invariant
            i <= existing@.len(),
            views == existing@.map_values(|s: String| s@),
            forall|k: int| 0 <= k < i ==> existing@[k]@ != name@,
        decreases existing.len() - i,
    {
        if existing[i] == *name {
            assert(views[i as int] == name@);
            return true;
        }
        i += 1;
    }
    assert(!views.contains(name@)) by {
        if views.contains(name@) {
            let k = choose|k: int| 0 <= k < views.len() && views[k] == name@;
            assert(existing@[k]@ == name@);
        }
    }
    false
}

fn last_dot_exec(v: &[char]) -> (r: usize)
    ensures
        (if last_dot(v@) <= 0 { r == 0 } else { r == last_dot(v@) }),
{
    let mut e: usize = v.len();
    assert(v@.take(v.len() as int) == v@);
    while e > 0 && v[e - 1] != '.'
        invariant
            e <= v.len(),
            last_dot(v@) == last_dot(v@.take(e as int)),
        decreases e,
    {
        assert(v@.take(e as int).drop_last() == v@.take(e as int - 1));
        e -= 1;
    }
    if e == 0 {
        assert(v@.take(0) == Seq::<char>::empty());
        0
    } else {
        e - 1
    }
}

fn numbered_name_exec(stem: &[char], ext: &[char], k: usize) -> (r: String)
    ensures
        r@ == stem@ + seq![' ', '('] + dec(k as nat) + seq![')'] + ext@,
{
    let mut v: Vec<char> = Vec::new();
    let mut i: usize = 0;
    while i < stem.len()
        invariant
            i <= stem.len(),
            v@ == stem@.take(i as int),
        decreases stem.len() - i,
    {
        v.push(stem[i]);
        assert(stem@.take(i + 1) == stem@.take(i as int).push(stem@[i as int]));
        i += 1;
    }
    assert(stem@.take(stem.len() as int) == stem@);
    v.push(' ');
    v.push('(');
    let d = crate::text::u64_to_dec(k as u64);
    let ghost before = v@;
    let mut j: usize = 0;
    while j < d.len()
        invariant
            j <= d.len(),
            v@ == before + d@.take(j as int),
        decreases d.len() - j,
    {
        v.push(d[j]);
        assert(d@.take(j + 1) == d@.take(j as int).push(d@[j as int]));
        j += 1;
    }
    assert(d@.take(d.len() as int) == d@);
    v.push(')');
    let ghost before2 = v@;
    let mut m: usize = 0;
    while m < ext.len()
        invariant
            m <= ext.len(),
            v@ == before2 + ext@.take(m as int),
        decreases ext.len() - m,
    {
        v.push(ext[m]);
        assert(ext@.take(m + 1) == ext@.take(m as int).push(ext@[m as int]));
        m += 1;
    }
    assert(ext@.take(ext.len() as int) == ext@);
    assert(v@ =~= stem@ + seq![' ', '('] + dec(k as nat) + seq![')'] + ext@);
    string_from_chars(&v)
}

/// `candidate` itself when no existing name equals it; otherwise the first
/// of `stem (1)ext`, `stem (2)ext`, ... that is not taken.
pub fn generate_unique_filename(existing_names: &[String], candidate: &str) -> (r: String)
    requires
        existing_names@.len() < usize::MAX,
    ensures
        !name_set(existing_names@).contains(candidate@) ==> r@ == candidate@,
        name_set(existing_names@).contains(candidate@) ==> exists|k: nat|
            {
                &&& k >= 1
                &&& r@ == numbered_name(candidate@, k)
                &&& !name_set(existing_names@).contains(numbered_name(candidate@, k))
                &&& forall|j: nat|
                    1 <= j < k ==> name_set(existing_names@).contains(
                        #[trigger] numbered_name(candidate@, j),
                    )
            },
{
    let cand: String = candidate.to_owned();
    if !contains_name(existing_names, &cand) {
        return cand;
    }
    let ghost set = name_set(existing_names@);
    proof {
        existing_names@.map_values(|s: String| s@).lemma_cardinality_of_set();
        vstd::seq_lib::seq_to_set_is_finite(existing_names@.map_values(|s: String| s@));
    }
    let c = chars_of(candidate);
    let dot = last_dot_exec(&c);
    proof {
        lemma_last_dot(c@);
    }
    let (stem, ext) = if dot == 0 {
        (sub_vec(&c, 0, c.len()), Vec::new())
    } else {
        (sub_vec(&c, 0, dot), sub_vec(&c, dot, c.len()))
    };
    assert(stem@ == name_stem(c@));
    assert(ext@ == name_ext(c@));
    let mut index: usize = 1;
    loop
        invariant
            1 <= index <= existing_names@.len() + 1,
            existing_names@.len() < usize::MAX,
            set == name_set(existing_names@),
            set.contains(candidate@),
            set.finite(),
            set.len() <= existing_names@.len(),
            stem@ == name_stem(candidate@),
            ext@ == name_ext(candidate@),
            forall|j: nat| 1 <= j < index ==> set.contains(#[trigger] numbered_name(candidate@, j)),
        decreases existing_names@.len() + 1 - index,
    {
        let name = numbered_name_exec(&stem, &ext, index);
        assert(name@ == numbered_name(candidate@, index as nat));
        if !contains_name(existing_names, &name) {
            return name;
        }
        proof {
            lemma_taken_bound(candidate@, index as nat, set);
        }
        index += 1;
    }
}

/// Text of `FilenameError::FilenameTooLong(len)`.
pub open spec fn too_long_message(len: nat) -> Seq<char> {
    "Filename byte length exceeds maximum ("@ + dec(len) + " > 1024)"@
}

impl FilenameError {
    /// The human readable description of the error.
    pub fn message(&self) -> (m: String)
        ensures
            self matches FilenameError::FilenameTooLong(n) ==> m@ == too_long_message(n as nat),
            self matches FilenameError::EmptyFilename ==> m@ == "Filename is empty or only whitespace"@,
            self matches FilenameError::InvalidCharacters ==> m@
                == "Filename contains invalid characters (NUL or path separators)"@,
            self matches FilenameError::ReservedName ==> m@ == "Filename is a reserved name"@,
    {
        match self {
            FilenameError::EmptyFilename => "Filename is empty or only whitespace".to_owned(),
            FilenameError::InvalidCharacters => "Filename contains invalid characters (NUL or path separators)".to_owned(),
            FilenameError::ReservedName => "Filename is a reserved name".to_owned(),
            FilenameError::FilenameTooLong(n) => {
                let mut v = chars_of("Filename byte length exceeds maximum (");
                let d = crate::text::u64_to_dec(*n as u64);
                crate::text::extend_from(&mut v, &d);
                let tail = chars_of(" > 1024)");
                crate::text::extend_from(&mut v, &tail);
                string_from_chars(&v)
            },
        }
    }
}

proof fn lemma_trim_end_prefix(s: Seq<char>)
    ensures
        trim_end(s).len() <= s.len(),
        trim_end(s) == s.take(trim_end(s).len() as int),
        s.len() > 0 && !is_ws(s.last()) ==> trim_end(s) == s,
    decreases s.len(),
{
    if s.len() > 0 && is_ws(s.last()) {
        lemma_trim_end_prefix(s.drop_last());
        assert(s.drop_last().take(trim_end(s).len() as int) =~= s.take(trim_end(s).len() as int));
    } else {
        assert(s.take(s.len() as int) =~= s);
    }
}

proof fn lemma_trim_end_dots_ws_prefix(s: Seq<char>)
    ensures
        trim_end_dots_ws(s).len() <= s.len(),
        trim_end_dots_ws(s) == s.take(trim_end_dots_ws(s).len() as int),
        trim_end_dots_ws(s).len() > 0 ==> trim_end_dots_ws(s).last() != '.' && !is_ws(
            trim_end_dots_ws(s).last(),
        ),
    decreases s.len(),
{
    if s.len() > 0 && (s.last() == '.' || is_ws(s.last())) {
        lemma_trim_end_dots_ws_prefix(s.drop_last());
        assert(s.drop_last().take(trim_end_dots_ws(s).len() as int) =~= s.take(
            trim_end_dots_ws(s).len() as int,
        ));
    } else {
        assert(s.take(s.len() as int) =~= s);
    }
}

proof fn lemma_trim_start_suffix(s: Seq<char>)
    ensures
        trim_start(s).len() <= s.len(),
        trim_start(s) == s.skip(s.len() - trim_start(s).len()),
        trim_start(s).len() > 0 ==> !is_ws(trim_start(s)[0]),
        s.len() > 0 && !is_ws(s[0]) ==> trim_start(s) == s,
    decreases s.len(),
{
    if s.len() > 0 && is_ws(s[0]) {
        lemma_trim_start_suffix(s.drop_first());
        assert(s.drop_first().skip(s.len() - 1 - trim_start(s).len()) =~= s.skip(
            s.len() - trim_start(s).len(),
        ));
    } else {
        assert(s.skip(0) =~= s);
    }
}

/// The properties of a name that sanitizing leaves as it is.
pub open spec fn is_plain_name(n: Seq<char>) -> bool {
    &&& n.len() > 0
    &&& n.last() != '.'
    &&& !is_ws(n[0])
    &&& !is_ws(n.last())
    &&& forall|i: int| 0 <= i < n.len() ==> !is_forbidden_char(#[trigger] n[i]) && !is_ctrl(n[i])
}

proof fn lemma_keep_printable(s: Seq<char>)
    ensures
        forall|i: int| 0 <= i < keep_printable(s).len() ==> !is_ctrl(#[trigger] keep_printable(s)[i]),
        (forall|i: int| 0 <= i < s.len() ==> !is_ctrl(#[trigger] s[i])) ==> keep_printable(s) == s,
    decreases s.len(),
{
    if s.len() > 0 {
        lemma_keep_printable(s.drop_last());
        let r = keep_printable(s.drop_last());
        if !is_ctrl(s.last()) {
            assert forall|i: int| 0 <= i < keep_printable(s).len() implies !is_ctrl(
                #[trigger] keep_printable(s)[i],
            ) by {
                if i < r.len() {
                    assert(keep_printable(s)[i] == r[i]);
                }
            }
        }
        if forall|i: int| 0 <= i < s.len() ==> !is_ctrl(#[trigger] s[i]) {
            assert forall|i: int| 0 <= i < s.drop_last().len() implies !is_ctrl(
                #[trigger] s.drop_last()[i],
            ) by {
                assert(s.drop_last()[i] == s[i]);
            }
            assert(!is_ctrl(s[s.len() - 1]));
            assert(s.drop_last().push(s.last()) =~= s);
        }
    }
}

proof fn lemma_no_seps(s: Seq<char>)
    requires
        forall|i: int| 0 <= i < s.len() ==> !is_sep(#[trigger] s[i]),
    ensures
        strip_trailing_seps(s) == s,
        after_last_sep(s) == s,
    decreases s.len(),
{
    if s.len() > 0 {
        assert(!is_sep(s[s.len() - 1]));
        assert forall|i: int| 0 <= i < s.drop_last().len() implies !is_sep(#[trigger] s.drop_last()[i]) by {
            assert(s.drop_last()[i] == s[i]);
        }
        lemma_no_seps(s.drop_last());
        assert(s.drop_last().push(s.last()) =~= s);
    }
}

proof fn lemma_stem_without_dots(s: Seq<char>)
    requires
        forall|i: int| 0 <= i < s.len() ==> #[trigger] s[i] != '.',
    ensures
        stem(s) == s,
    decreases s.len(),
{
    if s.len() > 0 {
        assert forall|i: int| 0 <= i < s.drop_first().len() implies #[trigger] s.drop_first()[i]
            != '.' by {
            assert(s.drop_first()[i] == s[i + 1]);
        }
        lemma_stem_without_dots(s.drop_first());
        assert(seq![s[0]] + s.drop_first() =~= s);
    }
}

/// A sanitized name is never empty, never ends in a dot (so it is neither
/// `.` nor `..`), has no whitespace at either end, and holds no control
/// character and no character that separates paths or that Windows refuses
/// in a file name.
pub proof fn sanitized_names_are_plain(raw: Seq<char>)
    ensures
        is_plain_name(sanitized_name(raw)),
{
    let n = sanitized_name(raw);
    let t = trim(raw);
    let u = unnamed();
    if t.len() == 0 || is_dot_name(basename(strip_drive(t))) {
        assert(n == u);
        assert(forall|i: int| 0 <= i < u.len() ==> !is_forbidden_char(#[trigger] u[i]) && !is_ctrl(u[i]));
    } else {
        let b = basename(strip_drive(t));
        let k = keep_printable(b);
        let x = replace_forbidden(k);
        let y = trim_end_dots_ws(x);
        let ts = trim_start(y);
        let c = trim_end(ts);
        lemma_keep_printable(b);
        lemma_trim_end_dots_ws_prefix(x);
        lemma_trim_start_suffix(y);
        lemma_trim_end_prefix(ts);
        if ts.len() > 0 {
            assert(ts.last() == y.last());
            assert(c == ts);
        }
        assert forall|i: int| 0 <= i < c.len() implies !is_forbidden_char(#[trigger] c[i]) && !is_ctrl(c[i]) by {
            let j = y.len() - ts.len() + i;
            assert(c[i] == ts[i]);
            assert(ts[i] == y[j]);
            assert(y[j] == x[j]);
            assert(!is_ctrl(k[j]));
        }
        if c.len() == 0 {
            assert(n == u);
            assert(forall|i: int| 0 <= i < u.len() ==> !is_forbidden_char(#[trigger] u[i]) && !is_ctrl(u[i]));
        } else if is_reserved_stem(upper_seq(stem(c))) {
            let r = seq!['_'] + c;
            assert(n == r);
            assert forall|i: int| 0 <= i < r.len() implies !is_forbidden_char(#[trigger] r[i]) && !is_ctrl(r[i]) by {
                if i > 0 {
                    assert(r[i] == c[i - 1]);
                }
            }
            assert(r.last() == c.last());
        }
    }
}

/// Sanitizing a name that sanitizing produced gives the same name back.
pub proof fn sanitize_is_idempotent(raw: Seq<char>)
    ensures
        sanitized_name(sanitized_name(raw)) == sanitized_name(raw),
{
    let n = sanitized_name(raw);
    sanitized_names_are_plain(raw);
    // Sanitizing `n` finds nothing to strip, replace or trim.
    lemma_trim_start_suffix(n);
    lemma_trim_end_prefix(n);
    assert(trim(n) == n);
    assert(n.len() >= 2 ==> !is_forbidden_char(n[1]));
    assert(strip_drive(n) == n);
    assert forall|i: int| 0 <= i < n.len() implies !is_sep(#[trigger] n[i]) by {
        assert(!is_forbidden_char(n[i]));
    }
    lemma_no_seps(n);
    assert(basename(n) == n);
    assert(!is_dot_name(n)) by {
        if is_dot_name(n) {
            assert(n.last() == '.');
        }
    }
    lemma_keep_printable(n);
    assert(replace_forbidden(n) =~= n);
    lemma_trim_end_dots_ws_prefix(n);
    assert(trim_end_dots_ws(n) == n);
    // The name `n` is kept unless its stem is a device name, which it is
    // not: it is the plain name that was not one, or starts with `_`, or is
    // the fallback name.
    let t = trim(raw);
    let u = unnamed();
    if t.len() == 0 || is_dot_name(basename(strip_drive(t))) {
        assert(n == u);
        assert forall|i: int| 0 <= i < u.len() implies #[trigger] u[i] != '.' by {}
        lemma_stem_without_dots(u);
        assert(upper_seq(stem(n)).len() == 12);
    } else {
        let b = basename(strip_drive(t));
        let c = trim(trim_end_dots_ws(replace_forbidden(keep_printable(b))));
        if c.len() == 0 {
            assert(n == u);
            assert forall|i: int| 0 <= i < u.len() implies #[trigger] u[i] != '.' by {}
            lemma_stem_without_dots(u);
            assert(upper_seq(stem(n)).len() == 12);
        } else if is_reserved_stem(upper_seq(stem(c))) {
            assert(n == seq!['_'] + c);
            assert(n[0] == '_');
            assert(stem(n)[0] == '_');
            assert(upper_seq(stem(n))[0] == '_');
        } else {
            assert(n == c);
        }
    }
}

} // verus!
