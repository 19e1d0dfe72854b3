//! Reading decimal numbers from text.
//!
//! A number is an optional sign and at least one of the digits `0` to
//! `9`, with nothing before, between or after them. Unsigned numbers take
//! `+` for a sign, signed numbers `+` or `-`.

use vstd::prelude::*;
use vstd::string::*;

verus! {

/// Whether `c` is one of the digits `0` to `9`.
pub open spec fn is_digit(c: char) -> bool {
    '0' <= c && c <= '9'
}

/// The value of the digit `c`.
pub open spec fn digit_value(c: char) -> int {
    c as int - '0' as int
}

/// Whether `text` holds nothing but digits.
pub open spec fn all_digits(text: Seq<char>) -> bool {
    forall|k: int| 0 <= k < text.len() ==> is_digit(#[trigger] text[k])
}

/// The number that the digits `text` stand for.
pub open spec fn digits_value(text: Seq<char>) -> int
    decreases text.len(),
{
    if text.len() == 0 {
        0
    } else {
        10 * digits_value(text.drop_last()) + digit_value(text.last())
    }
}

/// The integer that `text` stands for, if it stands for one. A minus sign
/// is taken for a sign only where `signed_type` is set.
pub open spec fn parsed_int(text: Seq<char>, signed_type: bool) -> Option<int> {
    let negative = text.len() > 0 && text[0] == '-' && signed_type;
    let body = if negative || (text.len() > 0 && text[0] == '+') {
        text.skip(1)
    } else {
        text
    };
    if body.len() == 0 || !all_digits(body) {
        None
    } else if negative {
        Some(-digits_value(body))
    } else {
        Some(digits_value(body))
    }
}

/// The `i32` that `text` stands for, if it stands for one.
pub open spec fn parsed_i32(text: Seq<char>) -> Option<i32> {
    match parsed_int(text, true) {
        Some(v) => if i32::MIN <= v <= i32::MAX {
            Some(v as i32)
        } else {
            None
        },
        None => None,
    }
}

/// The `u32` that `text` stands for, if it stands for one.
pub open spec fn parsed_u32(text: Seq<char>) -> Option<u32> {
    match parsed_int(text, false) {
        Some(v) => if v <= u32::MAX {
            Some(v as u32)
        } else {
            None
        },
        None => None,
    }
}

/// The `usize` that `text` stands for, if it stands for one.
pub open spec fn parsed_usize(text: Seq<char>) -> Option<usize> {
    match parsed_int(text, false) {
        Some(v) => if v <= usize::MAX {
            Some(v as usize)
        } else {
            None
        },
        None => None,
    }
}

/// The value of digits is not negative, and grows with every digit that
/// is appended.
pub proof fn lemma_digits_value_grows(text: Seq<char>, k: int)
    requires
        all_digits(text),
        0 <= k <= text.len(),
    ensures
        0 <= digits_value(text.take(k)) <= digits_value(text),
    decreases text.len() - k,
{
    lemma_digits_value_nonnegative(text.take(k));
    if k < text.len() {
        lemma_digits_value_grows(text, k + 1);
        let longer = text.take(k + 1);
        assert(longer.drop_last() =~= text.take(k));
        assert(longer.last() == text[k]);
    } else {
        assert(text.take(k) =~= text);
    }
}

/// The value of digits is not negative.
pub proof fn lemma_digits_value_nonnegative(text: Seq<char>)
    requires
        all_digits(text),
    ensures
        0 <= digits_value(text),
    decreases text.len(),
{
    if text.len() > 0 {
        lemma_digits_value_nonnegative(text.drop_last());
        assert(is_digit(text[text.len() - 1]));
    }
}

/// Reads the digits of `s` from the position `start` on. Returns their
/// value where there is at least one, all are digits and the value is at
/// most `limit`.
pub fn parse_digits(s: &str, start: usize, limit: u64) -> (res: Option<u64>)
    requires
        start <= s@.len(),
    ensures
        match res {
            Some(v) => s@.len() > start && all_digits(s@.skip(start as int)) && v == digits_value(
                s@.skip(start as int),
            ) && v <= limit,
            None => !(s@.len() > start && all_digits(s@.skip(start as int)) && digits_value(
                s@.skip(start as int),
            ) <= limit),
        },
{
    let len = s.unicode_len();
    if len == start {
        return None;
    }
    let ghost body = s@.skip(start as int);
    let mut value: u128 = 0;
    let mut k: usize = start;
    assert(body.take(0) =~= Seq::<char>::empty());
    while k < len
        invariant
            start <= k <= len,
            len == s@.len(),
            body == s@.skip(start as int),
            all_digits(body.take(k - start)),
            value == digits_value(body.take(k - start)),
            value <= limit,
        decreases len - k,
    {
        let c = s.get_char(k);
        assert(c == body[k - start]);
        if !(c >= '0' && c <= '9') {
            assert(!all_digits(body));
            return None;
        }
        let d = (c as u32 - '0' as u32) as u128;
        let ghost longer = body.take(k - start + 1);
        assert(longer.drop_last() =~= body.take(k - start));
        assert(longer.last() == c);
        assert(all_digits(longer));
        let next = value * 10 + d;
        if next > limit as u128 {
            proof {
                if all_digits(body) {
                    lemma_digits_value_grows(body, k - start + 1);
                }
            }
            return None;
        }
        value = next;
        k = k + 1;
    }
    assert(body.take(k - start) =~= body);
    Some(value as u64)
}

/// Reads a signed 32-bit number.
pub fn parse_i32(s: &str) -> (res: Option<i32>)
    ensures
        res == parsed_i32(s@),
{
    let len = s.unicode_len();
    if len == 0 {
        return None;
    }
    let first = s.get_char(0);
    if first == '-' {
        match parse_digits(s, 1, 0x8000_0000) {
            Some(v) => {
                let x = -(v as i64);
                Some(x as i32)
            },
            None => None,
        }
    } else if first == '+' {
        match parse_digits(s, 1, 0x7fff_ffff) {
            Some(v) => Some(v as i32),
            None => None,
        }
    } else {
        assert(s@.skip(0) =~= s@);
        match parse_digits(s, 0, 0x7fff_ffff) {
            Some(v) => Some(v as i32),
            None => None,
        }
    }
}

/// Reads an unsigned 32-bit number.
pub fn parse_u32(s: &str) -> (res: Option<u32>)
    ensures
        res == parsed_u32(s@),
{
    let len = s.unicode_len();
    if len == 0 {
        return None;
    }
    let start: usize = if s.get_char(0) == '+' {
        1
    } else {
        0
    };
    assert(s@.skip(0) =~= s@);
    match parse_digits(s, start, 0xffff_ffff) {
        Some(v) => Some(v as u32),
        None => None,
    }
}

/// Reads an unsigned number of the size of an address of the host.
pub fn parse_usize(s: &str) -> (res: Option<usize>)
    ensures
        res == parsed_usize(s@),
{
    let len = s.unicode_len();
    if len == 0 {
        return None;
    }
    let start: usize = if s.get_char(0) == '+' {
        1
    } else {
        0
    };
    assert(s@.skip(0) =~= s@);
    match parse_digits(s, start, usize::MAX as u64) {
        Some(v) => Some(v as usize),
        None => None,
    }
}

} // verus!
