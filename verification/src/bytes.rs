//! Fixed-width integers as big-endian and little-endian byte strings.

use vstd::prelude::*;

verus! {

/// 256 to the power `len`.
pub open spec fn pow256(len: nat) -> nat
    decreases len,
{
    if len == 0 {
        1
    } else {
        256 * pow256((len - 1) as nat)
    }
}

/// The `len` lowest bytes of `n`, most significant first.
pub open spec fn be_bytes(n: nat, len: nat) -> Seq<u8>
    decreases len,
{
    if len == 0 {
        Seq::empty()
    } else {
        be_bytes(n / 256, (len - 1) as nat).push((n % 256) as u8)
    }
}

/// The value of a most-significant-first byte string.
pub open spec fn be_value(s: Seq<u8>) -> nat
    decreases s.len(),
{
    if s.len() == 0 {
        0
    } else {
        be_value(s.drop_last()) * 256 + (s.last() as nat)
    }
}

/// The `len` lowest bytes of `n`, least significant first.
pub open spec fn le_bytes(n: nat, len: nat) -> Seq<u8>
    decreases len,
{
    if len == 0 {
        Seq::empty()
    } else {
        seq![(n % 256) as u8] + le_bytes(n / 256, (len - 1) as nat)
    }
}

/// The value of a least-significant-first byte string.
pub open spec fn le_value(s: Seq<u8>) -> nat
    decreases s.len(),
{
    if s.len() == 0 {
        0
    } else {
        le_value(s.drop_first()) * 256 + (s[0] as nat)
    }
}

pub proof fn lemma_pow256_values()
    ensures
        pow256(0) == 1,
        pow256(1) == 256,
        pow256(2) == 0x10000,
        pow256(4) == 0x1_0000_0000,
        pow256(8) == 0x1_0000_0000_0000_0000,
{
    reveal_with_fuel(pow256, 9);
}

pub proof fn lemma_pow256_pos(len: nat)
    ensures
        pow256(len) >= 1,
    decreases len,
{
    if len > 0 {
        lemma_pow256_pos((len - 1) as nat);
    }
}

pub proof fn lemma_be_bytes(n: nat, len: nat)
    ensures
        be_bytes(n, len).len() == len,
        n < pow256(len) ==> be_value(be_bytes(n, len)) == n,
    decreases len,
{
    if len > 0 {
        lemma_be_bytes(n / 256, (len - 1) as nat);
        let s = be_bytes(n, len);
        assert(s.drop_last() == be_bytes(n / 256, (len - 1) as nat));
        if n < pow256(len) {
            assert(n / 256 < pow256((len - 1) as nat));
        }
    }
}

pub proof fn lemma_be_value(s: Seq<u8>)
    ensures
        be_value(s) < pow256(s.len()),
        be_bytes(be_value(s), s.len()) == s,
    decreases s.len(),
{
    if s.len() > 0 {
        lemma_be_value(s.drop_last());
        let v = be_value(s);
        let p = be_value(s.drop_last());
        assert(v / 256 == p);
        assert(v % 256 == s.last());
        assert(be_bytes(v, s.len()) =~= be_bytes(p, s.drop_last().len()).push(s.last()));
        assert(s.drop_last().push(s.last()) =~= s);
    }
}

pub proof fn lemma_le_bytes(n: nat, len: nat)
    ensures
        le_bytes(n, len).len() == len,
        n < pow256(len) ==> le_value(le_bytes(n, len)) == n,
    decreases len,
{
    if len > 0 {
        lemma_le_bytes(n / 256, (len - 1) as nat);
        let s = le_bytes(n, len);
        assert(s.drop_first() == le_bytes(n / 256, (len - 1) as nat));
        if n < pow256(len) {
            assert(n / 256 < pow256((len - 1) as nat));
        }
    }
}

pub proof fn lemma_le_value(s: Seq<u8>)
    ensures
        le_value(s) < pow256(s.len()),
        le_bytes(le_value(s), s.len()) == s,
    decreases s.len(),
{
    if s.len() > 0 {
        lemma_le_value(s.drop_first());
        let v = le_value(s);
        let p = le_value(s.drop_first());
        assert(v / 256 == p);
        assert(v % 256 == s[0]);
        assert(le_bytes(v, s.len()) =~= seq![s[0]] + le_bytes(p, s.drop_first().len()));
        assert(seq![s[0]] + s.drop_first() =~= s);
    }
}

/// Appends the `len` lowest bytes of `n`, most significant first.
pub fn push_be(out: &mut Vec<u8>, n: u64, len: usize)
    requires
        len <= 8,
    ensures
        final(out)@ == old(out)@ + be_bytes(n as nat, len as nat),
    decreases len,
{
    if len > 0 {
        push_be(out, n / 256, len - 1);
        out.push((n % 256) as u8);
        assert(final(out)@ =~= old(out)@ + be_bytes(n as nat, len as nat));
    } else {
        assert(out@ =~= old(out)@ + be_bytes(n as nat, len as nat));
    }
}

/// Appends the `len` lowest bytes of `n`, least significant first.
pub fn push_le(out: &mut Vec<u8>, n: u64, len: usize)
    requires
        len <= 8,
    ensures
        final(out)@ == old(out)@ + le_bytes(n as nat, len as nat),
    decreases len,
{
    if len > 0 {
        out.push((n % 256) as u8);
        push_le(out, n / 256, len - 1);
        assert(final(out)@ =~= old(out)@ + le_bytes(n as nat, len as nat));
    } else {
        assert(out@ =~= old(out)@ + le_bytes(n as nat, len as nat));
    }
}

/// Reads `len` bytes at `start`, most significant first.
pub fn read_be(b: &[u8], start: usize, len: usize) -> (v: u64)
    requires
        len <= 8,
        start + len <= b@.len(),
    ensures
        v == be_value(b@.subrange(start as int, start + len)),
{
    let total = b.len();
    let mut v: u64 = 0;
    let mut i: usize = 0;
    proof {
        lemma_pow256_values();
        assert(b@.subrange(start as int, start as int) =~= Seq::<u8>::empty());
    }
    while i < len
        invariant
            i <= len <= 8,
            start + len <= b@.len(),
            total == b@.len(),
            v == be_value(b@.subrange(start as int, start + i)),
            v < pow256(i as nat),
            pow256(8) == 0x1_0000_0000_0000_0000,
        decreases len - i,
    {
        proof {
            lemma_pow_mono(i as nat + 1, 8);
            assert(b@.subrange(start as int, start + i + 1).drop_last() =~= b@.subrange(
                start as int,
                start + i,
            ));
        }
        v = v * 256 + b[start + i] as u64;
        i += 1;
    }
    v
}

/// Reads `len` bytes at `start`, least significant first.
pub fn read_le(b: &[u8], start: usize, len: usize) -> (v: u64)
    requires
        len <= 8,
        start + len <= b@.len(),
    ensures
        v == le_value(b@.subrange(start as int, start + len)),
{
    let total = b.len();
    let mut v: u64 = 0;
    let mut i: usize = len;
    proof {
        lemma_pow256_values();
        assert(b@.subrange(start + len, start + len) =~= Seq::<u8>::empty());
    }
    while i > 0
        invariant
            i <= len <= 8,
            start + len <= b@.len(),
            total == b@.len(),
            v == le_value(b@.subrange(start + i, start + len)),
            v < pow256((len - i) as nat),
            pow256(8) == 0x1_0000_0000_0000_0000,
        decreases i,
    {
        proof {
            lemma_pow_mono((len - i) as nat + 1, 8);
            assert(b@.subrange(start + i - 1, start + len).drop_first() =~= b@.subrange(
                start + i,
                start + len,
            ));
        }
        v = v * 256 + b[start + i - 1] as u64;
        i -= 1;
    }
    v
}

pub proof fn lemma_pow_mono(a: nat, b: nat)
    requires
        a <= b,
    ensures
        pow256(a) <= pow256(b),
    decreases b,
{
    if a < b {
        lemma_pow_mono(a, (b - 1) as nat);
        lemma_pow256_pos((b - 1) as nat);
    }
}

} // verus!
