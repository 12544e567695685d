//! Arithmetic on the machine's 64-bit words.
//!
//! A word is an unsigned 64-bit integer. Addition, subtraction and
//! multiplication are taken modulo 2^64; the signed instructions read a word
//! as a two's-complement number.

use vstd::prelude::*;

verus! {

/// The word that is congruent to `i` modulo 2^64.
pub open spec fn wrap(i: int) -> u64 {
    (i % 0x1_0000_0000_0000_0000) as u64
}

/// The two's-complement number that a word stands for.
pub open spec fn signed(t: u64) -> int {
    if t >= 0x8000_0000_0000_0000 {
        t - 0x1_0000_0000_0000_0000
    } else {
        t as int
    }
}

/// The absolute value of the number that a word stands for. The most
/// negative number has an absolute value of 2^63, which is a word.
pub open spec fn abs_word(t: u64) -> u64 {
    if signed(t) < 0 {
        (-signed(t)) as u64
    } else {
        t
    }
}

/// The word that stands for the negation of the number that `t` stands for.
/// Negating the most negative number gives that number back.
pub open spec fn neg_word(t: u64) -> u64 {
    wrap(-signed(t))
}

/// `q` shifted left by `p` bits, `p` taken modulo 64.
pub open spec fn shl_word(q: u64, p: u64) -> u64 {
    q << (p % 64)
}

/// `q` shifted right by `p` bits, `p` taken modulo 64. Zeros come in from
/// the left.
pub open spec fn shr_word(q: u64, p: u64) -> u64 {
    q >> (p % 64)
}

/// The word for a truth value.
pub open spec fn flag(b: bool) -> u64 {
    if b {
        1
    } else {
        0
    }
}

/// Widens a signed one-byte immediate to a word, keeping its sign.
pub fn extend_i8(v: i8) -> (r: u64)
    ensures
        r == wrap(v as int),
{
    let r: u64 = v as u64;
    assert(r == wrap(v as int)) by {
        assert(v >= 0 ==> (v as u64) == v) by (bit_vector);
        assert(v < 0 ==> (v as u64) == v + 0x1_0000_0000_0000_0000) by (bit_vector);
    }
    r
}

/// Widens a signed two-byte immediate to a word, keeping its sign.
pub fn extend_i16(v: i16) -> (r: u64)
    ensures
        r == wrap(v as int),
{
    let r: u64 = v as u64;
    assert(r == wrap(v as int)) by {
        assert(v >= 0 ==> (v as u64) == v) by (bit_vector);
        assert(v < 0 ==> (v as u64) == v + 0x1_0000_0000_0000_0000) by (bit_vector);
    }
    r
}

/// Widens a signed four-byte immediate to a word, keeping its sign.
pub fn extend_i32(v: i32) -> (r: u64)
    ensures
        r == wrap(v as int),
{
    let r: u64 = v as u64;
    assert(r == wrap(v as int)) by {
        assert(v >= 0 ==> (v as u64) == v) by (bit_vector);
        assert(v < 0 ==> (v as u64) == v + 0x1_0000_0000_0000_0000) by (bit_vector);
    }
    r
}

/// Reads a signed eight-byte immediate as a word.
pub fn extend_i64(v: i64) -> (r: u64)
    ensures
        r == wrap(v as int),
{
    let r: u64 = v as u64;
    assert(r == wrap(v as int)) by {
        assert(v >= 0 ==> (v as u64) == v) by (bit_vector);
        assert(v < 0 ==> (v as u64) == v + 0x1_0000_0000_0000_0000) by (bit_vector);
    }
    r
}

/// The sum of two words, modulo 2^64.
pub fn plus(q: u64, p: u64) -> (r: u64)
    ensures
        r == wrap(q + p),
{
    q.wrapping_add(p)
}

/// Adding a word is adding any number that the word is congruent to.
pub proof fn lemma_wrap_add(a: int, b: int)
    ensures
        wrap(a + wrap(b)) == wrap(a + b),
{
    vstd::arithmetic::div_mod::lemma_add_mod_noop_right(a, b, 0x1_0000_0000_0000_0000);
}

/// The address `off` bytes away from `pc`, modulo 2^64.
pub fn displaced(pc: u64, off: i16) -> (r: u64)
    ensures
        r == wrap(pc + off),
{
    proof {
        lemma_wrap_add(pc as int, off as int);
    }
    plus(pc, extend_i16(off))
}

/// The difference of two words, modulo 2^64.
pub fn minus(q: u64, p: u64) -> (r: u64)
    ensures
        r == wrap(q - p),
{
    q.wrapping_sub(p)
}

/// The product of two words, modulo 2^64.
pub fn times(q: u64, p: u64) -> (r: u64)
    ensures
        r == wrap(q * p),
{
    q.wrapping_mul(p)
}

/// The absolute value of a word read as a signed number.
pub fn abs(t: u64) -> (r: u64)
    ensures
        r == abs_word(t),
{
    if t >= 0x8000_0000_0000_0000 {
        0u64.wrapping_sub(t)
    } else {
        t
    }
}

/// The negation of a word read as a signed number.
pub fn neg(t: u64) -> (r: u64)
    ensures
        r == neg_word(t),
{
    0u64.wrapping_sub(t)
}

/// The bitwise complement of a word.
pub fn not(t: u64) -> (r: u64)
    ensures
        r == !t,
        r == u64::MAX - t,
{
    assert(!t == 0xffff_ffff_ffff_ffffu64 - t) by (bit_vector);
    !t
}

/// `q` shifted left by `p` bits, `p` taken modulo 64.
pub fn shl(q: u64, p: u64) -> (r: u64)
    ensures
        r == shl_word(q, p),
{
    let s: u64 = p % 64;
    q << s
}

/// `q` shifted right by `p` bits, `p` taken modulo 64.
pub fn shr(q: u64, p: u64) -> (r: u64)
    ensures
        r == shr_word(q, p),
{
    let s: u64 = p % 64;
    q >> s
}

/// The word for a truth value: 1 for true, 0 for false.
pub fn truth(b: bool) -> (r: u64)
    ensures
        r == flag(b),
{
    if b {
        1
    } else {
        0
    }
}

/// Adding wraps around: the largest word plus one is zero, and a sum that
/// fits is the sum.
pub proof fn lemma_wrap(i: int)
    ensures
        0 <= i <= u64::MAX ==> wrap(i) == i,
        u64::MAX < i <= 2 * u64::MAX + 1 ==> wrap(i) == i - 0x1_0000_0000_0000_0000,
        -0x1_0000_0000_0000_0000 <= i < 0 ==> wrap(i) == i + 0x1_0000_0000_0000_0000,
{
}

} // verus!
