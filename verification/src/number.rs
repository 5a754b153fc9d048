//! Decimal integers as text: reading the value of a literal, and writing a
//! value out.

use vstd::prelude::*;
use vstd::string::*;

verus! {

/// `b` is the code of one of the digits `0` to `9`.
pub open spec fn is_digit_byte(b: u8) -> bool {
    0x30 <= b <= 0x39
}

/// Every byte of `digits` is a digit.
pub open spec fn all_digits(digits: Seq<u8>) -> bool {
    forall|i: int| 0 <= i < digits.len() ==> is_digit_byte(#[trigger] digits[i])
}

/// The number that the digits spell in base ten; the empty text spells zero.
pub open spec fn decimal_value(digits: Seq<u8>) -> nat
    decreases digits.len(),
{
    if digits.len() == 0 {
        0
    } else {
        (decimal_value(digits.drop_last()) * 10 + (digits.last() - 0x30)) as nat
    }
}

/// `text` starts with a minus sign.
pub open spec fn has_minus(text: Seq<u8>) -> bool {
    text.len() > 0 && text[0] == 0x2d
}

/// The digits of `text`: all of it but a leading minus sign.
pub open spec fn magnitude_digits(text: Seq<u8>) -> Seq<u8> {
    if has_minus(text) {
        text.subrange(1, text.len() as int)
    } else {
        text
    }
}

/// `text` is an integer literal: an optional minus sign, then one digit or
/// more.
pub open spec fn is_integer_text(text: Seq<u8>) -> bool {
    magnitude_digits(text).len() > 0 && all_digits(magnitude_digits(text))
}

/// The value of the integer literal `text`.
pub open spec fn integer_value(text: Seq<u8>) -> int {
    if has_minus(text) {
        -(decimal_value(magnitude_digits(text)) as int)
    } else {
        decimal_value(magnitude_digits(text)) as int
    }
}

/// What reading `text` as a 64-bit integer gives: its value, where `text` is
/// an integer literal whose value fits.
pub open spec fn parsed_integer(text: Seq<u8>) -> Option<i64> {
    if is_integer_text(text) && i64::MIN <= integer_value(text) <= i64::MAX {
        Some(integer_value(text) as i64)
    } else {
        None
    }
}

/// Digits added at the end never make the number smaller.
pub proof fn lemma_decimal_value_grows(digits: Seq<u8>, k: int)
    requires
        all_digits(digits),
        0 <= k <= digits.len(),
    ensures
        decimal_value(digits.take(k)) <= decimal_value(digits),
    decreases digits.len() - k,
{
    if k == digits.len() {
        assert(digits.take(k) =~= digits);
    } else {
        let shorter = digits.drop_last();
        assert(shorter.take(k) =~= digits.take(k));
        assert(all_digits(shorter)) by {
            assert forall|i: int| 0 <= i < shorter.len() implies is_digit_byte(
                #[trigger] shorter[i],
            ) by {
                assert(shorter[i] == digits[i]);
            }
        }
        lemma_decimal_value_grows(shorter, k);
        assert(is_digit_byte(digits[digits.len() - 1]));
    }
}

/// One more digit multiplies the number by ten and adds the digit.
pub proof fn lemma_decimal_value_step(digits: Seq<u8>, k: int)
    requires
        0 <= k < digits.len(),
        is_digit_byte(digits[k]),
    ensures
        decimal_value(digits.take(k + 1)) == decimal_value(digits.take(k)) * 10 + (digits[k]
            - 0x30),
{
    let longer = digits.take(k + 1);
    assert(longer.drop_last() =~= digits.take(k));
    assert(longer.last() == digits[k]);
}

/// Reads `text` as a 64-bit integer in base ten. The text is an optional
/// minus sign and then digits; anything else, and a value that does not fit,
/// gives nothing.
pub fn parse_integer(text: &[u8]) -> (value: Option<i64>)
    ensures
        value == parsed_integer(text@),
{
    let len = text.len();
    let negative = len > 0 && text[0] == 0x2d;
    let first: usize = if negative {
        1
    } else {
        0
    };
    if first >= len {
        return None;
    }
    let ghost digits = magnitude_digits(text@);
    let limit: u64 = if negative {
        0x8000_0000_0000_0000
    } else {
        0x7fff_ffff_ffff_ffff
    };
    let mut magnitude: u64 = 0;
    let mut i: usize = first;
    while i < len
        invariant
            first <= i <= len,
            len == text@.len(),
            digits == magnitude_digits(text@),
            digits.len() == len - first,
            forall|k: int| 0 <= k < digits.len() ==> digits[k] == text@[k + first],
            all_digits(digits.take(i - first)),
            magnitude == decimal_value(digits.take(i - first)),
            magnitude <= limit,
            negative == has_minus(text@),
            limit == if negative {
                0x8000_0000_0000_0000u64
            } else {
                0x7fff_ffff_ffff_ffffu64
            },
        decreases len - i,
    {
        let b = text[i];
        let ghost k = i - first;
        assert(digits[k] == b);
        if b < 0x30 || b > 0x39 {
            assert(!all_digits(digits));
            return None;
        }
        let d: u64 = (b - 0x30) as u64;
        proof {
            lemma_decimal_value_step(digits, k);
            assert(all_digits(digits.take(k + 1))) by {
                assert forall|j: int| 0 <= j < k + 1 implies is_digit_byte(
                    #[trigger] digits.take(k + 1)[j],
                ) by {
                    if j < k {
                        assert(digits.take(k)[j] == digits[j]);
                    }
                }
            }
        }
        if magnitude > (limit - d) / 10 {
            proof {
                assert(magnitude * 10 + d > limit);
                assert(decimal_value(digits.take(k + 1)) > limit);
                if all_digits(digits) {
                    lemma_decimal_value_grows(digits, k + 1);
                    assert(decimal_value(digits) > limit);
                }
                assert(negative == has_minus(text@));
            }
            return None;
        }
        magnitude = magnitude * 10 + d;
        i = i + 1;
    }
    proof {
        assert(digits.take(len - first) =~= digits);
    }
    if negative {
        if magnitude == 0x8000_0000_0000_0000 {
            Some(i64::MIN)
        } else {
            Some(-(magnitude as i64))
        }
    } else {
        Some(magnitude as i64)
    }
}

/// The character of the digit `d`.
pub open spec fn digit_char(d: nat) -> char {
    if d == 0 {
        '0'
    } else if d == 1 {
        '1'
    } else if d == 2 {
        '2'
    } else if d == 3 {
        '3'
    } else if d == 4 {
        '4'
    } else if d == 5 {
        '5'
    } else if d == 6 {
        '6'
    } else if d == 7 {
        '7'
    } else if d == 8 {
        '8'
    } else {
        '9'
    }
}

/// The digits of `n` in base ten, the first of them not zero unless `n` is
/// zero.
pub open spec fn digits_text(n: nat) -> Seq<char>
    decreases n,
{
    if n < 10 {
        seq![digit_char(n)]
    } else {
        digits_text(n / 10).push(digit_char(n % 10))
    }
}

/// The integer `v` written in base ten, with a minus sign if it is negative.
pub open spec fn decimal_text(v: int) -> Seq<char> {
    if v < 0 {
        seq!['-'] + digits_text((-v) as nat)
    } else {
        digits_text(v as nat)
    }
}

/// The digit `d` as a text of one character.
fn digit_str(d: u64) -> (text: &'static str)
    requires
        d < 10,
    ensures
        text@ == seq![digit_char(d as nat)],
{
    proof {
        reveal_strlit("0");
        reveal_strlit("1");
        reveal_strlit("2");
        reveal_strlit("3");
        reveal_strlit("4");
        reveal_strlit("5");
        reveal_strlit("6");
        reveal_strlit("7");
        reveal_strlit("8");
        reveal_strlit("9");
    }
    let text = if d == 0 {
        "0"
    } else if d == 1 {
        "1"
    } else if d == 2 {
        "2"
    } else if d == 3 {
        "3"
    } else if d == 4 {
        "4"
    } else if d == 5 {
        "5"
    } else if d == 6 {
        "6"
    } else if d == 7 {
        "7"
    } else if d == 8 {
        "8"
    } else {
        "9"
    };
    assert(text@ =~= seq![digit_char(d as nat)]);
    text
}

/// Writes the digits of `n` at the end of `out`.
pub fn push_digits(out: &mut String, n: u64)
    ensures
        final(out)@ == old(out)@ + digits_text(n as nat),
    decreases n,
{
    if n >= 10 {
        push_digits(out, n / 10);
    }
    out.append(digit_str(n % 10));
    proof {
        if n >= 10 {
            assert(old(out)@ + digits_text((n / 10) as nat) + seq![digit_char((n % 10) as nat)]
                =~= old(out)@ + digits_text(n as nat));
        }
    }
}

/// Writes `v` in base ten at the end of `out`.
pub fn push_integer(out: &mut String, v: i64)
    ensures
        final(out)@ == old(out)@ + decimal_text(v as int),
{
    if v < 0 {
        out.append("-");
        proof {
            reveal_strlit("-");
        }
        let magnitude: u64 = if v == i64::MIN {
            0x8000_0000_0000_0000
        } else {
            (-v) as u64
        };
        push_digits(out, magnitude);
        assert(old(out)@ + "-"@ + digits_text(magnitude as nat) =~= old(out)@ + decimal_text(
            v as int,
        ));
    } else {
        push_digits(out, v as u64);
    }
}

} // verus!
