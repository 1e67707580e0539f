//! Byte-order helpers and the Internet checksum (RFC 1071).
//!
//! The checksum is modelled as a left-to-right fold of 16-bit big-endian
//! words under one's-complement addition (addition with end-around carry),
//! followed by a one's complement of the folded sum.  A trailing odd byte
//! contributes as the high half of a final word.

use vstd::prelude::*;
use vstd::pervasive::VecAdditionalExecFns;

verus! {

/// One's-complement addition of two 16-bit quantities: ordinary addition,
/// with the carry out of bit 15 folded back into bit 0.
pub open spec fn ones_add(a: int, b: int) -> int {
    if a + b >= 0x10000 {
        a + b - 0xffff
    } else {
        a + b
    }
}

/// The big-endian 16-bit word starting at byte `i`.
pub open spec fn be16_at(s: Seq<u8>, i: int) -> int {
    (s[i] as int) * 256 + (s[i + 1] as int)
}

/// The big-endian 32-bit word starting at byte `i`.
pub open spec fn be32_at(s: Seq<u8>, i: int) -> int {
    (s[i] as int) * 0x1000000 + (s[i + 1] as int) * 0x10000 + (s[i + 2] as int) * 256 + (s[
        i + 3
    ] as int)
}

/// One's-complement sum of the 16-bit words of `s` from offset `i` on,
/// starting from the accumulator `a`.  A trailing odd byte counts as the
/// high half of a word.
pub open spec fn ones_fold(s: Seq<u8>, i: int, a: int) -> int
    decreases s.len() - i,
{
    if i >= 0 && i + 1 < s.len() {
        ones_fold(s, i + 2, ones_add(a, be16_at(s, i)))
    } else if 0 <= i && i < s.len() {
        ones_add(a, (s[i] as int) * 256)
    } else {
        a
    }
}

/// The Internet checksum of a byte sequence: the one's complement of the
/// folded word sum.
pub open spec fn checksum_spec(s: Seq<u8>) -> int {
    0xffff - ones_fold(s, 0, 0)
}

/// The folded sum stays a 16-bit quantity.
pub proof fn lemma_ones_fold_bounds(s: Seq<u8>, i: int, a: int)
    requires
        0 <= a <= 0xffff,
    ensures
        0 <= ones_fold(s, i, a) <= 0xffff,
    decreases s.len() - i,
{
    if i >= 0 && i + 1 < s.len() {
        lemma_ones_fold_bounds(s, i + 2, ones_add(a, be16_at(s, i)));
    }
}

/// Swap the two bytes of a 16-bit value.
pub open spec fn swap16(n: u16) -> u16 {
    ((n as int) % 256 * 256 + (n as int) / 256) as u16
}

/// Reverse the four bytes of a 32-bit value.
pub open spec fn swap32(n: u32) -> u32 {
    let b0 = (n as int) / 0x1000000;
    let b1 = (n as int) / 0x10000 % 256;
    let b2 = (n as int) / 256 % 256;
    let b3 = (n as int) % 256;
    (b3 * 0x1000000 + b2 * 0x10000 + b1 * 256 + b0) as u32
}

} // verus!

verus! {

/// Host-to-network byte order for a 16-bit value, on the little-endian
/// hosts this stack targets: a byte swap.
pub fn hton16(n: u16) -> (r: u16)
    ensures
        r == swap16(n),
{
    n % 256 * 256 + n / 256
}

/// Network-to-host byte order for a 16-bit value: the same byte swap.
pub fn ntoh16(n: u16) -> (r: u16)
    ensures
        r == swap16(n),
{
    n % 256 * 256 + n / 256
}

/// Host-to-network byte order for a 32-bit value: reverse the four bytes.
pub fn hton32(n: u32) -> (r: u32)
    ensures
        r == swap32(n),
{
    let b0: u32 = n / 0x1000000;
    let b1: u32 = n / 0x10000 % 256;
    let b2: u32 = n / 256 % 256;
    let b3: u32 = n % 256;
    b3 * 0x1000000 + b2 * 0x10000 + b1 * 256 + b0
}

/// Network-to-host byte order for a 32-bit value: the same byte reversal.
pub fn ntoh32(n: u32) -> (r: u32)
    ensures
        r == swap32(n),
{
    let b0: u32 = n / 0x1000000;
    let b1: u32 = n / 0x10000 % 256;
    let b2: u32 = n / 256 % 256;
    let b3: u32 = n % 256;
    b3 * 0x1000000 + b2 * 0x10000 + b1 * 256 + b0
}

/// Read the big-endian 16-bit word at offset `off`.
pub fn read_be16(data: &[u8], off: usize) -> (r: u16)
    requires
        off + 2 <= data@.len(),
    ensures
        r == be16_at(data@, off as int),
{
    (data[off] as u16) * 256 + (data[off + 1] as u16)
}

/// Read the big-endian 32-bit word at offset `off`.
pub fn read_be32(data: &[u8], off: usize) -> (r: u32)
    requires
        off + 4 <= data@.len(),
    ensures
        r == be32_at(data@, off as int),
{
    (data[off] as u32) * 0x1000000 + (data[off + 1] as u32) * 0x10000 + (data[off + 2] as u32) * 256
        + (data[off + 3] as u32)
}

/// The two big-endian bytes of a 16-bit value.
pub open spec fn be16_bytes(v: u16) -> Seq<u8> {
    seq![(v / 256) as u8, (v % 256) as u8]
}

/// The four big-endian bytes of a 32-bit value.
pub open spec fn be32_bytes(v: u32) -> Seq<u8> {
    seq![
        (v / 0x1000000) as u8,
        ((v / 0x10000) % 256) as u8,
        ((v / 256) % 256) as u8,
        (v % 256) as u8,
    ]
}

/// Reading back the two big-endian bytes of a 16-bit value gives it back.
pub proof fn lemma_be16_roundtrip(v: u16)
    ensures
        be16_at(be16_bytes(v), 0) == v,
{
    vstd::arithmetic::div_mod::lemma_fundamental_div_mod(v as int, 256);
}

/// Reading back the four big-endian bytes of a 32-bit value gives it back.
pub proof fn lemma_be32_roundtrip(v: u32)
    ensures
        be32_at(be32_bytes(v), 0) == v,
{
    vstd::arithmetic::div_mod::lemma_fundamental_div_mod(v as int, 256);
    vstd::arithmetic::div_mod::lemma_fundamental_div_mod(v as int / 256, 256);
    vstd::arithmetic::div_mod::lemma_fundamental_div_mod(v as int / 0x10000, 256);
}

/// Write `v` as two big-endian bytes at offset `off`.
pub fn write_be16(data: &mut Vec<u8>, off: usize, v: u16)
    requires
        off + 2 <= old(data)@.len(),
    ensures
        final(data)@ == old(data)@.update(off as int, (v / 256) as u8).update(
            off + 1,
            (v % 256) as u8,
        ),
        final(data)@.len() == old(data)@.len(),
        be16_at(final(data)@, off as int) == v,
{
    let n = data.len();
    assert(off + 2 <= n);
    data.set(off, (v / 256) as u8);
    data.set(off + 1, (v % 256) as u8);
    proof {
        vstd::arithmetic::div_mod::lemma_fundamental_div_mod(v as int, 256);
    }
}

/// Write `v` as four big-endian bytes at offset `off`.
pub fn write_be32(data: &mut Vec<u8>, off: usize, v: u32)
    requires
        off + 4 <= old(data)@.len(),
    ensures
        final(data)@ == old(data)@.update(off as int, (v / 0x1000000) as u8).update(
            off + 1,
            ((v / 0x10000) % 256) as u8,
        ).update(off + 2, ((v / 256) % 256) as u8).update(off + 3, (v % 256) as u8),
        final(data)@.len() == old(data)@.len(),
        be32_at(final(data)@, off as int) == v,
{
    let n = data.len();
    assert(off + 4 <= n);
    data.set(off, (v / 0x1000000) as u8);
    data.set(off + 1, (v / 0x10000 % 256) as u8);
    data.set(off + 2, (v / 256 % 256) as u8);
    data.set(off + 3, (v % 256) as u8);
    proof {
        vstd::arithmetic::div_mod::lemma_fundamental_div_mod(v as int, 256);
        vstd::arithmetic::div_mod::lemma_fundamental_div_mod(v as int / 256, 256);
        vstd::arithmetic::div_mod::lemma_fundamental_div_mod(v as int / 0x10000, 256);
    }
}

/// The Internet checksum (RFC 1071): fold the 16-bit big-endian words of
/// `data` with end-around carry and return the one's complement.
pub fn checksum(data: &[u8]) -> (r: u16)
    ensures
        r == checksum_spec(data@),
{
    let ghost s = data@;
    let mut sum: u32 = 0;
    let mut i: usize = 0;
    while i + 1 < data.len()
        invariant
            0 <= sum <= 0xffff,
            i <= data@.len(),
            i % 2 == 0,
            data@ == s,
            ones_fold(s, 0, 0) == ones_fold(s, i as int, sum as int),
        decreases data@.len() - i,
    {
        let word: u32 = (data[i] as u32) * 256 + (data[i + 1] as u32);
        let t: u32 = sum + word;
        sum = if t >= 0x10000 {
            t - 0xffff
        } else {
            t
        };
        i = i + 2;
    }
    if i < data.len() {
        let t: u32 = sum + (data[i] as u32) * 256;
        sum = if t >= 0x10000 {
            t - 0xffff
        } else {
            t
        };
    }
    proof {
        lemma_ones_fold_bounds(s, 0, 0);
    }
    (0xffff - sum) as u16
}

/// A buffer carrying its own checksum verifies exactly when its checksum
/// comes out zero.
pub fn verify_checksum(data: &[u8]) -> (r: bool)
    ensures
        r == (checksum_spec(data@) == 0),
{
    checksum(data) == 0
}

/// Folding an even-length prefix first and then the rest is the same as
/// folding the concatenation in one pass.
proof fn lemma_ones_fold_concat(s: Seq<u8>, t: Seq<u8>, i: int, a: int)
    requires
        0 <= i <= s.len(),
        (s.len() - i) % 2 == 0,
    ensures
        ones_fold(s + t, i, a) == ones_fold(t, 0, ones_fold(s, i, a)),
    decreases s.len() - i,
{
    if i + 1 < s.len() {
        assert((s + t)[i] == s[i]);
        assert((s + t)[i + 1] == s[i + 1]);
        lemma_ones_fold_concat(s, t, i + 2, ones_add(a, be16_at(s, i)));
    } else {
        assert(i == s.len());
        lemma_ones_fold_shift(s, t, 0, a);
    }
}

/// Folding the concatenation from the start of `t` ignores the prefix `s`.
proof fn lemma_ones_fold_shift(s: Seq<u8>, t: Seq<u8>, j: int, a: int)
    requires
        0 <= j,
    ensures
        ones_fold(s + t, s.len() + j, a) == ones_fold(t, j, a),
    decreases t.len() - j,
{
    let u = s + t;
    let i = s.len() + j;
    if j + 1 < t.len() {
        assert(u[i] == t[j]);
        assert(u[i + 1] == t[j + 1]);
        lemma_ones_fold_shift(s, t, j + 2, ones_add(a, be16_at(t, j)));
    } else if j < t.len() {
        assert(u[i] == t[j]);
    }
}

/// One's-complement addition is associative.
proof fn lemma_ones_add_assoc(a: int, b: int, c: int)
    requires
        0 <= a <= 0xffff,
        0 <= b <= 0xffff,
        0 <= c <= 0xffff,
    ensures
        ones_add(ones_add(a, b), c) == ones_add(a, ones_add(b, c)),
{
}

/// Folding from a combined accumulator is the same as folding and then
/// adding the extra summand.
proof fn lemma_ones_fold_acc(s: Seq<u8>, i: int, a: int, x: int)
    requires
        0 <= a <= 0xffff,
        0 <= x <= 0xffff,
    ensures
        ones_fold(s, i, ones_add(a, x)) == ones_add(x, ones_fold(s, i, a)),
    decreases s.len() - i,
{
    if i >= 0 && i + 1 < s.len() {
        let w = be16_at(s, i);
        lemma_ones_add_assoc(a, x, w);
        lemma_ones_add_assoc(a, w, x);
        lemma_ones_fold_acc(s, i + 2, ones_add(a, w), x);
    } else if 0 <= i && i < s.len() {
        lemma_ones_add_assoc(a, x, (s[i] as int) * 256);
        lemma_ones_add_assoc(a, (s[i] as int) * 256, x);
    }
}

/// Storing a 16-bit word into a zeroed, word-aligned field adds it,
/// one's-complement-wise, to the buffer's folded sum.
pub proof fn lemma_ones_fold_insert(s: Seq<u8>, i: int, w: int)
    requires
        0 <= i,
        i % 2 == 0,
        i + 2 <= s.len(),
        s[i] == 0,
        s[i + 1] == 0,
        0 <= w <= 0xffff,
    ensures
        ones_fold(s.update(i, (w / 256) as u8).update(i + 1, (w % 256) as u8), 0, 0) == ones_add(
            ones_fold(s, 0, 0),
            w,
        ),
{
    let f = ones_fold(s, 0, 0);
    lemma_ones_fold_bounds(s, 0, 0);
    let front = s.subrange(0, i);
    let back = s.subrange(i + 2, s.len() as int);
    let zero_word = seq![0u8, 0u8];
    let w_word = seq![(w / 256) as u8, (w % 256) as u8];
    let t = s.update(i, (w / 256) as u8).update(i + 1, (w % 256) as u8);

    assert(s =~= front + (zero_word + back));
    assert(t =~= front + (w_word + back));

    let fa = ones_fold(front, 0, 0);
    lemma_ones_fold_bounds(front, 0, 0);

    lemma_ones_fold_concat(front, zero_word + back, 0, 0);
    lemma_ones_fold_concat(zero_word, back, 0, fa);
    assert(be16_at(zero_word, 0) == 0);
    assert(ones_fold(zero_word, 2, ones_add(fa, 0)) == ones_add(fa, 0));
    assert(ones_fold(zero_word, 0, fa) == ones_add(fa, 0));
    assert(f == ones_fold(back, 0, fa));

    lemma_ones_fold_concat(front, w_word + back, 0, 0);
    lemma_ones_fold_concat(w_word, back, 0, fa);
    assert(w / 256 * 256 + w % 256 == w) by {
        vstd::arithmetic::div_mod::lemma_fundamental_div_mod(w, 256);
    }
    assert(be16_at(w_word, 0) == w);
    assert(ones_fold(w_word, 2, ones_add(fa, w)) == ones_add(fa, w));
    assert(ones_fold(w_word, 0, fa) == ones_add(fa, w));
    lemma_ones_fold_acc(back, 0, fa, w);
    assert(ones_fold(t, 0, 0) == ones_add(w, ones_fold(back, 0, fa)));
}

/// Storing the checksum of a buffer into a zeroed, word-aligned field of
/// that buffer yields a buffer whose checksum is zero, so that it
/// verifies.
pub proof fn lemma_checksum_insert(s: Seq<u8>, i: int)
    requires
        0 <= i,
        i % 2 == 0,
        i + 2 <= s.len(),
        s[i] == 0,
        s[i + 1] == 0,
    ensures
        ({
            let c = checksum_spec(s);
            checksum_spec(s.update(i, (c / 256) as u8).update(i + 1, (c % 256) as u8)) == 0
        }),
{
    lemma_ones_fold_bounds(s, 0, 0);
    lemma_ones_fold_insert(s, i, checksum_spec(s));
}

/// Appending the checksum of an even-length buffer, as two big-endian
/// bytes, yields a buffer whose checksum is zero, so that it verifies.
pub proof fn lemma_checksum_appended(s: Seq<u8>)
    requires
        s.len() % 2 == 0,
    ensures
        ({
            let c = checksum_spec(s);
            let trailer = seq![(c / 256) as u8, (c % 256) as u8];
            checksum_spec(s + trailer) == 0
        }),
{
    lemma_ones_fold_bounds(s, 0, 0);
    let f = ones_fold(s, 0, 0);
    let c = checksum_spec(s);
    let trailer = seq![(c / 256) as u8, (c % 256) as u8];
    lemma_ones_fold_concat(s, trailer, 0, 0);
    assert(c / 256 * 256 + c % 256 == c) by {
        vstd::arithmetic::div_mod::lemma_fundamental_div_mod(c, 256);
    }
    assert(be16_at(trailer, 0) == c);
    assert(ones_fold(trailer, 0, f) == ones_fold(trailer, 2, ones_add(f, c)));
    assert(ones_fold(trailer, 2, ones_add(f, c)) == ones_add(f, c));
    assert(ones_add(f, c) == 0xffff);
}

} // verus!
