//! Numbers as text: the hexadecimal and decimal forms in which words,
//! registers and immediates are shown.

use crate::word::signed;
use vstd::prelude::*;
use vstd::string::*;

verus! {

/// The character for a hexadecimal digit, in lower case.
pub open spec fn hex_digit(d: int) -> char {
    if d == 0 {
        '0'
    } else if d == 1 {
        '1'
    } else if d == 2 {
        '2'
    } else if d == 3 {
        '3'
    } else if d == 4 {
        '4'
    } else if d == 5 {
        '5'
    } else if d == 6 {
        '6'
    } else if d == 7 {
        '7'
    } else if d == 8 {
        '8'
    } else if d == 9 {
        '9'
    } else if d == 10 {
        'a'
    } else if d == 11 {
        'b'
    } else if d == 12 {
        'c'
    } else if d == 13 {
        'd'
    } else if d == 14 {
        'e'
    } else {
        'f'
    }
}

/// The first `count` of the eight hexadecimal digits of a word, the most
/// significant first.
pub open spec fn hex_prefix(w: u32, count: int) -> Seq<char>
    decreases count,
{
    if count <= 0 {
        Seq::empty()
    } else {
        hex_prefix(w, count - 1).push(hex_digit((w as int / pow16(8 - count)) % 16))
    }
}

/// Sixteen to the power `e`.
pub open spec fn pow16(e: int) -> int
    decreases e,
{
    if e <= 0 {
        1
    } else {
        16 * pow16(e - 1)
    }
}

/// A word as eight hexadecimal digits.
pub open spec fn hex8(w: u32) -> Seq<char> {
    hex_prefix(w, 8)
}

/// A natural number in decimal, without leading zeros.
pub open spec fn decimal_nat(n: nat) -> Seq<char>
    decreases n,
{
    if n < 10 {
        seq![hex_digit(n as int)]
    } else {
        decimal_nat(n / 10).push(hex_digit((n % 10) as int))
    }
}

/// An integer in decimal, with a minus sign where it is negative.
pub open spec fn decimal(x: int) -> Seq<char> {
    if x < 0 {
        seq!['-'] + decimal_nat((-x) as nat)
    } else {
        decimal_nat(x as nat)
    }
}

/// A register number as two decimal digits.
pub open spec fn decimal_2(n: nat) -> Seq<char> {
    if n < 10 {
        seq!['0'] + decimal_nat(n)
    } else {
        decimal_nat(n)
    }
}

/// The text `text`, with spaces after it up to the width `width`.
pub open spec fn padded(text: Seq<char>, width: nat) -> Seq<char>
    decreases width - text.len(),
{
    if text.len() >= width {
        text
    } else {
        padded(text.push(' '), width)
    }
}

/// The text of a digit.
pub fn digit_str(d: u32) -> (text: &'static str)
    requires
        d < 16,
    ensures
        text@ == seq![hex_digit(d as int)],
{
    proof {
        reveal_strlit("0");
        reveal_strlit("1");
        reveal_strlit("2");
        reveal_strlit("3");
        reveal_strlit("4");
        reveal_strlit("5");
        reveal_strlit("6");
        reveal_strlit("7");
        reveal_strlit("8");
        reveal_strlit("9");
        reveal_strlit("a");
        reveal_strlit("b");
        reveal_strlit("c");
        reveal_strlit("d");
        reveal_strlit("e");
        reveal_strlit("f");
    }
    let text = match d {
        0 => "0",
        1 => "1",
        2 => "2",
        3 => "3",
        4 => "4",
        5 => "5",
        6 => "6",
        7 => "7",
        8 => "8",
        9 => "9",
        10 => "a",
        11 => "b",
        12 => "c",
        13 => "d",
        14 => "e",
        _ => "f",
    };
    assert(text@ =~= seq![hex_digit(d as int)]);
    text
}

/// Adds the eight hexadecimal digits of `w` to `out`.
pub fn push_hex8(out: &mut String, w: u32)
    ensures
        final(out)@ == old(out)@ + hex8(w),
{
    let mut k: u32 = 0;
    assert(out@ =~= old(out)@ + hex_prefix(w, 0));
    while k < 8
        invariant
            k <= 8,
            out@ == old(out)@ + hex_prefix(w, k as int),
        decreases 8 - k,
    {
        let shift = 28 - 4 * k;
        let d = (w >> shift) & 0xf;
        assert(d < 16 && d as int == (w as int / pow16(7 - k)) % 16) by {
            lemma_hex_digit_of(w, k);
        }
        out.append(digit_str(d));
        k = k + 1;
        assert(out@ =~= old(out)@ + hex_prefix(w, k as int));
    }
}

/// The digit number `k` of a word, counted from the most significant, is
/// what a shift and a mask take out of it.
pub proof fn lemma_hex_digit_of(w: u32, k: u32)
    requires
        k < 8,
    ensures
        (w >> ((28 - 4 * k) as u32)) & 0xf < 16,
        ((w >> ((28 - 4 * k) as u32)) & 0xf) as int == (w as int / pow16(7 - k)) % 16,
{
    reveal_with_fuel(pow16, 9);
    let shift = (28 - 4 * k) as u32;
    assert((w >> shift) & 0xf == (w >> shift) % 16) by (bit_vector);
    if k == 0 {
        assert(w >> 28 == w / 0x1000_0000) by (bit_vector);
    } else if k == 1 {
        assert(w >> 24 == w / 0x100_0000) by (bit_vector);
    } else if k == 2 {
        assert(w >> 20 == w / 0x10_0000) by (bit_vector);
    } else if k == 3 {
        assert(w >> 16 == w / 0x1_0000) by (bit_vector);
    } else if k == 4 {
        assert(w >> 12 == w / 0x1000) by (bit_vector);
    } else if k == 5 {
        assert(w >> 8 == w / 0x100) by (bit_vector);
    } else if k == 6 {
        assert(w >> 4 == w / 0x10) by (bit_vector);
    } else {
        assert(w >> 0 == w / 1) by (bit_vector);
    }
}

/// Adds the decimal form of `n` to `out`.
pub fn push_decimal_nat(out: &mut String, n: u64)
    ensures
        final(out)@ == old(out)@ + decimal_nat(n as nat),
    decreases n,
{
    if n >= 10 {
        push_decimal_nat(out, n / 10);
    }
    out.append(digit_str((n % 10) as u32));
    assert(out@ =~= old(out)@ + decimal_nat(n as nat));
}

/// Adds to `out` the decimal form of the signed number that the bits of
/// `w` stand for.
pub fn push_decimal_signed(out: &mut String, w: u32)
    ensures
        final(out)@ == old(out)@ + decimal(signed(w)),
{
    if w >= 0x8000_0000 {
        proof {
            reveal_strlit("-");
        }
        out.append("-");
        // The magnitude of a negative word is its two's complement.
        let magnitude = (0xffff_ffff - w) + 1;
        push_decimal_nat(out, magnitude as u64);
        assert(out@ =~= old(out)@ + decimal(signed(w)));
    } else {
        push_decimal_nat(out, w as u64);
    }
}

/// The signed number that the sixteen low bits of `w` stand for.
pub open spec fn signed_16(w: u32) -> int {
    let low = w as int % 0x1_0000;
    if low < 0x8000 {
        low
    } else {
        low - 0x1_0000
    }
}

/// Adds to `out` the decimal form of the signed number that the sixteen
/// low bits of `w` stand for.
pub fn push_decimal_signed_16(out: &mut String, w: u32)
    ensures
        final(out)@ == old(out)@ + decimal(signed_16(w)),
{
    let low = w & 0xffff;
    assert(low == w % 0x1_0000) by (bit_vector)
        requires
            low == w & 0xffff,
    ;
    if low >= 0x8000 {
        proof {
            reveal_strlit("-");
        }
        out.append("-");
        push_decimal_nat(out, (0x1_0000 - low) as u64);
        assert(out@ =~= old(out)@ + decimal(signed_16(w)));
    } else {
        push_decimal_nat(out, low as u64);
    }
}

/// Adds to `out` the name of the register `r`: a dollar sign and the
/// number.
pub fn push_reg(out: &mut String, r: usize)
    ensures
        final(out)@ == old(out)@ + reg_name(r as nat),
{
    proof {
        reveal_strlit("$");
    }
    out.append("$");
    push_decimal_nat(out, r as u64);
    assert(out@ =~= old(out)@ + reg_name(r as nat));
}

/// The name of the register `r`: a dollar sign and the number.
pub open spec fn reg_name(r: nat) -> Seq<char> {
    seq!['$'] + decimal_nat(r)
}

/// Adds `text` to `out`, with spaces after it up to the width `width`.
pub fn push_padded(out: &mut String, text: &str, width: usize)
    ensures
        final(out)@ == old(out)@ + padded(text@, width as nat),
{
    proof {
        reveal_strlit(" ");
    }
    out.append(text);
    let mut len = text.unicode_len();
    let ghost mut shown = text@;
    while len < width
        invariant
            len == shown.len(),
            out@ == old(out)@ + shown,
            padded(shown, width as nat) == padded(text@, width as nat),
            " "@ == seq![' '],
        decreases width - len,
    {
        out.append(" ");
        len = len + 1;
        proof {
            shown = shown.push(' ');
        }
        assert(out@ =~= old(out)@ + shown);
    }
}

/// Adds the register number `r` to `out` as two decimal digits.
pub fn push_decimal_2(out: &mut String, r: usize)
    ensures
        final(out)@ == old(out)@ + decimal_2(r as nat),
{
    if r < 10 {
        proof {
            reveal_strlit("0");
        }
        out.append("0");
    }
    push_decimal_nat(out, r as u64);
    assert(out@ =~= old(out)@ + decimal_2(r as nat));
}

/// Whether two strings hold the same text.
pub fn same_text(a: &str, b: &str) -> (same: bool)
    ensures
        same == (a@ == b@),
{
    String::from_str(a) == String::from_str(b)
}

} // verus!
