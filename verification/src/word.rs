//! Arithmetic on 32-bit words: what the wrapping, signed and split
//! operations of the CPU mean over the integers, and the executable
//! operations that compute them.

use vstd::prelude::*;

verus! {

/// The number of values of a word: 2^32.
pub open spec fn word_range() -> int {
    0x1_0000_0000
}

/// The word that stands for the integer `x`: `x` modulo 2^32.
pub open spec fn word_of(x: int) -> u32 {
    (x % word_range()) as u32
}

/// The integer that the bits of `w` stand for in two's complement.
pub open spec fn signed(w: u32) -> int {
    if w < 0x8000_0000 {
        w as int
    } else {
        w - word_range()
    }
}

/// The absolute value of `x`.
pub open spec fn magnitude(x: int) -> int {
    if x < 0 {
        -x
    } else {
        x
    }
}

/// The quotient of `a` by `b`, rounded towards zero.
pub open spec fn trunc_div(a: int, b: int) -> int
    recommends
        b != 0,
{
    let q = magnitude(a) / magnitude(b);
    if (a < 0) != (b < 0) {
        -q
    } else {
        q
    }
}

/// The remainder that goes with `trunc_div`: it has the sign of `a`.
pub open spec fn trunc_rem(a: int, b: int) -> int
    recommends
        b != 0,
{
    let r = magnitude(a) % magnitude(b);
    if a < 0 {
        -r
    } else {
        r
    }
}

/// The upper word of the 64-bit value that stands for `x`.
pub open spec fn high_word(x: int) -> u32 {
    word_of(x / word_range())
}

/// The lower word of the 64-bit value that stands for `x`.
pub open spec fn low_word(x: int) -> u32 {
    word_of(x)
}

/// The sum of two words, modulo 2^32.
pub fn add32(a: u32, b: u32) -> (sum: u32)
    ensures
        sum == word_of(a + b),
{
    a.wrapping_add(b)
}

/// The difference of two words, modulo 2^32.
pub fn sub32(a: u32, b: u32) -> (diff: u32)
    ensures
        diff == word_of(a - b),
{
    a.wrapping_sub(b)
}

/// Four times a word, modulo 2^32.
pub fn times4(a: u32) -> (prod: u32)
    ensures
        prod == word_of(4 * a),
{
    a.wrapping_mul(4)
}

/// The bits of a word, read as a signed number.
pub fn to_signed(w: u32) -> (x: i32)
    ensures
        x == signed(w),
{
    let x = w as i32;
    assert(x as int == signed(w)) by (bit_vector)
        requires
            x == w as i32,
    ;
    x
}

/// The word whose bits stand for the signed number `x`.
pub fn from_signed(x: i32) -> (w: u32)
    ensures
        w == word_of(x as int),
        signed(w) == x,
{
    let w = x as u32;
    assert(w == word_of(x as int) && signed(w) == x as int) by (bit_vector)
        requires
            w == x as u32,
    ;
    w
}

/// The two halves of the signed 64-bit product of two words, the upper
/// half first.
pub fn mul_signed(a: u32, b: u32) -> (halves: (u32, u32))
    ensures
        halves.0 == high_word(signed(a) * signed(b)),
        halves.1 == low_word(signed(a) * signed(b)),
{
    let x = to_signed(a) as i64;
    let y = to_signed(b) as i64;
    assert(-0x4000_0000_0000_0000 <= x * y <= 0x4000_0000_0000_0000) by (nonlinear_arith)
        requires
            -0x8000_0000 <= x <= 0x7fff_ffff,
            -0x8000_0000 <= y <= 0x7fff_ffff,
    ;
    let p: i64 = x * y;
    let hi = (p >> 32) as u32;
    let lo = p as u32;
    assert(hi == high_word(p as int) && lo == low_word(p as int)) by (bit_vector)
        requires
            hi == (p >> 32) as u32,
            lo == p as u32,
    ;
    (hi, lo)
}

/// The two halves of the unsigned 64-bit product of two words, the upper
/// half first.
pub fn mul_unsigned(a: u32, b: u32) -> (halves: (u32, u32))
    ensures
        halves.0 == high_word(a * b),
        halves.1 == low_word(a * b),
{
    let x = a as u64;
    let y = b as u64;
    assert(0 <= x * y <= 0xffff_fffe_0000_0001) by (nonlinear_arith)
        requires
            0 <= x <= 0xffff_ffff,
            0 <= y <= 0xffff_ffff,
    ;
    let p: u64 = x * y;
    let hi = (p >> 32) as u32;
    let lo = p as u32;
    assert(hi == high_word(p as int) && lo == low_word(p as int)) by (bit_vector)
        requires
            hi == (p >> 32) as u32,
            lo == p as u32,
    ;
    (hi, lo)
}

/// The remainder and the quotient of the signed division of `a` by `b`,
/// each as a word, the remainder first. The quotient is rounded towards
/// zero and wraps where it does not fit (the least number by minus one).
pub fn div_signed(a: u32, b: u32) -> (parts: (u32, u32))
    requires
        b != 0,
    ensures
        parts.0 == word_of(trunc_rem(signed(a), signed(b))),
        parts.1 == word_of(trunc_div(signed(a), signed(b))),
{
    let x = to_signed(a);
    let y = to_signed(b);
    let rem: u32 = match x.checked_rem(y) {
        Some(r) => from_signed(r),
        None => 0,
    };
    let quot: u32 = match x.checked_div(y) {
        Some(q) => from_signed(q),
        None => 0x8000_0000,
    };
    proof {
        let r = trunc_rem(x as int, y as int);
        let q = trunc_div(x as int, y as int);
        assert(-0x8000_0000 <= r <= 0x7fff_ffff && -0x8000_0000 <= q <= 0x8000_0000) by {
            lemma_trunc_bounds(x as int, y as int);
        }
        if x == i32::MIN && y == -1 {
            assert(magnitude(x as int) == 0x8000_0000 && magnitude(y as int) == 1);
            assert(0x8000_0000int % 1 == 0 && 0x8000_0000int / 1 == 0x8000_0000);
            assert(r == 0);
            assert(q == 0x8000_0000);
        } else {
            let (r32, q32) = (r as i32, q as i32);
            if x == 0 {
                let m = magnitude(y as int);
                assert(0int / m == 0 && 0int % m == 0) by (nonlinear_arith)
                    requires
                        m > 0,
                ;
            }
            if x == i32::MIN && y != 1 {
                let (ma, mb) = (magnitude(x as int), magnitude(y as int));
                vstd::arithmetic::div_mod::lemma_div_is_ordered_by_denominator(ma, 2, mb);
            }
            assert(q <= 0x7fff_ffff);
            assert(x.checked_rem(y) == Some(r32));
            assert(x.checked_div(y) == Some(q32));
        }
    }
    (rem, quot)
}

/// The remainder and the quotient of the unsigned division of `a` by `b`,
/// the remainder first.
pub fn div_unsigned(a: u32, b: u32) -> (parts: (u32, u32))
    requires
        b != 0,
    ensures
        parts.0 == a % b,
        parts.1 == a / b,
{
    (a % b, a / b)
}

/// A quotient rounded towards zero is no larger in magnitude than the
/// dividend, and its remainder is smaller in magnitude than the divisor.
pub proof fn lemma_trunc_bounds(a: int, b: int)
    requires
        b != 0,
    ensures
        magnitude(trunc_div(a, b)) <= magnitude(a),
        magnitude(trunc_rem(a, b)) < magnitude(b),
        magnitude(trunc_rem(a, b)) <= magnitude(a),
        a == b * trunc_div(a, b) + trunc_rem(a, b),
{
    let (ma, mb) = (magnitude(a), magnitude(b));
    vstd::arithmetic::div_mod::lemma_fundamental_div_mod(ma, mb);
    vstd::arithmetic::div_mod::lemma_div_pos_is_pos(ma, mb);
    vstd::arithmetic::div_mod::lemma_div_is_ordered_by_denominator(ma, 1, mb);
    vstd::arithmetic::div_mod::lemma_mod_pos_bound(ma, mb);
    let (q, r) = (ma / mb, ma % mb);
    assert(ma == mb * q + r);
    assert(q <= ma);
    assert(r <= ma) by (nonlinear_arith)
        requires
            ma == mb * q + r,
            mb > 0,
            q >= 0,
            r >= 0,
    ;
    assert(mb * (-q) == -(mb * q)) by (nonlinear_arith);
    assert((-mb) * q == -(mb * q)) by (nonlinear_arith);
    assert((-mb) * (-q) == mb * q) by (nonlinear_arith);
}

} // verus!
