//! Text that comes from outside: comparing it, and reading numbers from it.

use vstd::prelude::*;
use vstd::string::*;
use vstd::utf8::*;

verus! {

/// Whether two texts hold the same characters.
pub fn same_text(a: &str, b: &str) -> (same: bool)
    ensures
        same == (a@ == b@),
{
    let x = a.as_bytes();
    let y = b.as_bytes();
    proof {
        encode_utf8_decode_utf8(a@);
        encode_utf8_decode_utf8(b@);
    }
    if x.len() != y.len() {
        return false;
    }
    let n = x.len();
    let mut i: usize = 0;
    while i < n
        invariant
            i <= n,
            n == x@.len(),
            n == y@.len(),
            x@ == a.spec_bytes(),
            y@ == b.spec_bytes(),
            forall|j: int| 0 <= j < i ==> x@[j] == y@[j],
        decreases n - i,
    {
        if x[i] != y[i] {
            return false;
        }
        i = i + 1;
    }
    proof {
        assert(x@ =~= y@);
    }
    true
}

/// Whether a character is one of the ten decimal digits.
pub open spec fn is_digit(c: char) -> bool {
    '0' <= c <= '9'
}

/// The number that a decimal digit stands for.
pub open spec fn digit_value(c: char) -> nat {
    (c as u32 - '0' as u32) as nat
}

/// Whether a text is made of decimal digits only.
pub open spec fn all_digits(text: Seq<char>) -> bool {
    forall|i: int| 0 <= i < text.len() ==> is_digit(#[trigger] text[i])
}

/// The number that a text of decimal digits stands for; 0 for no digits.
pub open spec fn decimal_value(digits: Seq<char>) -> nat
    decreases digits.len(),
{
    if digits.len() == 0 {
        0
    } else {
        decimal_value(digits.drop_last()) * 10 + digit_value(digits.last())
    }
}

/// The digits of a number as it is written: the text without one leading
/// plus sign.
pub open spec fn number_digits(text: Seq<char>) -> Seq<char> {
    if text.len() > 0 && text[0] == '+' {
        text.drop_first()
    } else {
        text
    }
}

/// The number that a text stands for, if it is a number of at most `max`:
/// one or more decimal digits, with or without a plus sign before them.
/// Leading zeros count for nothing. Anything else is no number: an empty
/// text, a sign alone, a minus sign, a blank, a digit of another script.
pub open spec fn parsed_number(text: Seq<char>, max: u64) -> Option<u64> {
    let digits = number_digits(text);
    if digits.len() > 0 && all_digits(digits) && decimal_value(digits) <= max {
        Some(decimal_value(digits) as u64)
    } else {
        None
    }
}

/// A number is at least as large as what any of its leading digits spell.
pub proof fn lemma_decimal_value_grows(digits: Seq<char>, k: int)
    requires
        0 <= k <= digits.len(),
    ensures
        decimal_value(digits.take(k)) <= decimal_value(digits),
    decreases digits.len(),
{
    if k == digits.len() {
        assert(digits.take(k) =~= digits);
    } else {
        lemma_decimal_value_grows(digits.drop_last(), k);
        assert(digits.drop_last().take(k) =~= digits.take(k));
    }
}

/// Reads a number of at most `max` from a text.
pub fn parse_number(text: &str, max: u64) -> (number: Option<u64>)
    ensures
        number == parsed_number(text@, max),
{
    broadcast use is_ascii_spec_bytes;

    let ghost digits = number_digits(text@);
    if !text.is_ascii() {
        proof {
            let i = choose|i: int| 0 <= i < text@.len() && !('\0' <= #[trigger] text@[i] <= '\u{7f}');
            if text@[0] == '+' {
                assert(digits[i - 1] == text@[i]);
            } else {
                assert(digits[i] == text@[i]);
            }
        }
        return None;
    }
    let bytes = text.as_bytes();
    let n = bytes.len();
    assert(n == text@.len());
    assert(forall|j: int| 0 <= j < n ==> bytes@[j] == (#[trigger] text@[j]) as u8);
    let start: usize = if n > 0 && bytes[0] == 43 {
        1
    } else {
        0
    };
    assert(text@.len() > 0 ==> (text@[0] == '+' <==> bytes@[0] == 43));
    assert(digits =~= text@.subrange(start as int, n as int));
    if start == n {
        return None;
    }
    let mut value: u64 = 0;
    let mut i: usize = start;
    while i < n
        invariant
            start <= i <= n,
            n == text@.len(),
            n == bytes@.len(),
            is_ascii(text),
            forall|j: int| 0 <= j < n ==> bytes@[j] == (#[trigger] text@[j]) as u8,
            digits == text@.subrange(start as int, n as int),
            digits == number_digits(text@),
            all_digits(digits.take(i - start)),
            value == decimal_value(digits.take(i - start)),
            value <= max,
        decreases n - i,
    {
        let byte = bytes[i];
        let ghost c = text@[i as int];
        assert(c == digits[i - start]);
        assert('\0' <= c <= '\u{7f}');
        if byte < 48 || byte > 57 {
            assert(!is_digit(c));
            return None;
        }
        assert(is_digit(c));
        let digit: u64 = (byte - 48) as u64;
        assert(digit == digit_value(c));
        proof {
            assert(digits.take(i + 1 - start).drop_last() =~= digits.take(i - start));
            assert(digits.take(i + 1 - start).last() == c);
            assert(decimal_value(digits.take(i + 1 - start)) == value * 10 + digit);
            lemma_decimal_value_grows(digits, i + 1 - start);
        }
        if digit > max || value > (max - digit) / 10 {
            assert(value * 10 + digit > max);
            return None;
        }
        value = value * 10 + digit;
        i = i + 1;
    }
    proof {
        assert(digits.take(n - start) =~= digits);
    }
    Some(value)
}

} // verus!
