//! Integers written in decimal.

use vstd::prelude::*;
use vstd::string::*;
use vstd::utf8::*;

use crate::text::decimal;

verus! {

/// The value of the digits of `text`, read in decimal.
pub open spec fn decimal_value(text: Seq<char>) -> nat
    decreases text.len(),
{
    if text.len() == 0 {
        0
    } else {
        decimal_value(text.drop_last()) * 10 + (text.last() as int - '0' as int) as nat
    }
}

/// Whether `text` is made of decimal digits, at least one.
pub open spec fn is_decimal(text: Seq<char>) -> bool {
    &&& text.len() > 0
    &&& forall|i: int| 0 <= i < text.len() ==> '0' <= #[trigger] text[i] <= '9'
}

/// The integer that `text` stands for where it is digits behind an optional plus sign.
pub open spec fn unsigned_integer(text: Seq<char>) -> Option<int> {
    let digits = if text.len() > 0 && text[0] == '+' {
        text.skip(1)
    } else {
        text
    };
    if is_decimal(digits) {
        Some(decimal_value(digits) as int)
    } else {
        None
    }
}

/// The integer that `text` stands for where it is digits behind an optional sign.
pub open spec fn signed_integer(text: Seq<char>) -> Option<int> {
    if text.len() > 0 && text[0] == '-' {
        if is_decimal(text.skip(1)) {
            Some(-(decimal_value(text.skip(1)) as int))
        } else {
            None
        }
    } else {
        unsigned_integer(text)
    }
}

/// More digits make no smaller number.
proof fn decimal_value_grows(text: Seq<char>, length: int)
    requires
        0 <= length <= text.len(),
    ensures
        decimal_value(text.take(length)) <= decimal_value(text),
    decreases text.len(),
{
    if length < text.len() {
        decimal_value_grows(text.drop_last(), length);
        assert(text.drop_last().take(length) =~= text.take(length));
    } else {
        assert(text.take(length) =~= text);
    }
}

/// The number that the digits of `text` from `start` on stand for, where it fits.
fn parse_digits(text: &str, start: usize) -> (number: Option<u128>)
    requires
        text.is_ascii(),
        start <= text@.len(),
    ensures
        match number {
            Some(n) => is_decimal(text@.skip(start as int)) && n == decimal_value(
                text@.skip(start as int),
            ),
            None => !is_decimal(text@.skip(start as int)) || decimal_value(
                text@.skip(start as int),
            ) > u128::MAX,
        },
{
    let ghost digits = text@.skip(start as int);
    let length: usize = text.unicode_len();
    if start == length {
        return None;
    }
    let mut value: u128 = 0;
    let mut at: usize = start;
    while at < length
        invariant
            text.is_ascii(),
            start <= at <= length,
            length == text@.len(),
            digits == text@.skip(start as int),
            value == decimal_value(digits.take(at - start)),
            forall|i: int| 0 <= i < at - start ==> '0' <= #[trigger] digits[i] <= '9',
        decreases length - at,
    {
        let byte: u8 = text.get_ascii(at);
        proof {
            is_ascii_chars_nat_bound(text@);
            assert(digits[at - start] == text@[at as int]);
            assert(digits.take(at + 1 - start).drop_last() =~= digits.take(at - start));
            decimal_value_grows(digits, at + 1 - start);
        }
        if byte < 48 || byte > 57 {
            return None;
        }
        let digit: u128 = (byte - 48) as u128;
        if value > (u128::MAX - digit) / 10 {
            return None;
        }
        value = value * 10 + digit;
        at += 1;
    }
    assert(digits.take(digits.len() as int) =~= digits);
    Some(value)
}

/// The integer of 128 bits, without sign, that `text` stands for.
pub fn parse_unsigned(text: &str) -> (number: Option<u128>)
    ensures
        match number {
            Some(n) => unsigned_integer(text@) == Some(n as int),
            None => unsigned_integer(text@) matches Some(n) ==> n > u128::MAX,
        },
{
    if !text.is_ascii() {
        proof {
            let digits = if text@.len() > 0 && text@[0] == '+' {
                text@.skip(1)
            } else {
                text@
            };
            if is_decimal(digits) {
                assert forall|i: int| 0 <= i < text@.len() implies '\0' <= #[trigger] text@[i]
                    <= '\u{7f}' by {
                    if text@[0] == '+' {
                        if i > 0 {
                            assert(text@[i] == digits[i - 1]);
                        }
                    } else {
                        assert(text@[i] == digits[i]);
                    }
                }
                assert(text.is_ascii());
            }
        }
        return None;
    }
    assert(text@.skip(0) =~= text@);
    if text.unicode_len() > 0 && text.get_char(0) == '+' {
        parse_digits(text, 1)
    } else {
        parse_digits(text, 0)
    }
}

/// The integer of 128 bits, with sign, that `text` stands for.
pub fn parse_signed(text: &str) -> (number: Option<i128>)
    ensures
        match number {
            Some(n) => signed_integer(text@) == Some(n as int),
            None => signed_integer(text@) matches Some(n) ==> n < i128::MIN || n > i128::MAX,
        },
{
    if text.is_ascii() && text.unicode_len() > 0 && text.get_char(0) == '-' {
        return match parse_digits(text, 1) {
            Some(n) => if n > 0x8000_0000_0000_0000_0000_0000_0000_0000 {
                None
            } else if n == 0x8000_0000_0000_0000_0000_0000_0000_0000 {
                Some(i128::MIN)
            } else {
                Some(-(n as i128))
            },
            None => None,
        };
    }
    if !text.is_ascii() {
        proof {
            if text@.len() > 0 && text@[0] == '-' && is_decimal(text@.skip(1)) {
                assert forall|i: int| 0 <= i < text@.len() implies '\0' <= #[trigger] text@[i]
                    <= '\u{7f}' by {
                    if i > 0 {
                        assert(text@[i] == text@.skip(1)[i - 1]);
                    }
                }
                assert(text.is_ascii());
            }
        }
    }
    match parse_unsigned(text) {
        Some(n) => if n > 0x7fff_ffff_ffff_ffff_ffff_ffff_ffff_ffff {
            None
        } else {
            Some(n as i128)
        },
        None => None,
    }
}

/// A number that is written in decimal is read back.
pub proof fn decimal_is_read_back(n: nat)
    ensures
        unsigned_integer(decimal(n)) == Some(n as int),
        signed_integer(decimal(n)) == Some(n as int),
{
    digits_are_read_back(n);
    assert('0' <= decimal(n)[0] <= '9');
}

/// The digits of a number stand for it.
proof fn digits_are_read_back(n: nat)
    ensures
        is_decimal(decimal(n)),
        decimal_value(decimal(n)) == n,
    decreases n,
{
    reveal_with_fuel(decimal_value, 2);
    if n >= 10 {
        digits_are_read_back(n / 10);
        assert(decimal(n).drop_last() =~= decimal(n / 10));
    } else {
        assert(decimal(n).drop_last() =~= Seq::empty());
    }
}

/// Each digit counts for itself, and for ten times as much with every digit behind it.
pub proof fn digits_count_by_their_place(text: Seq<char>, digit: char)
    requires
        '0' <= digit <= '9',
    ensures
        decimal_value(Seq::empty()) == 0,
        decimal_value(text.push(digit)) == 10 * decimal_value(text) + (digit as int - '0' as int),
{
    assert(text.push(digit).drop_last() =~= text);
}

/// Text is an integer where it is digits, at least one, behind at most one sign; a minus
/// sign counts only where the integer may be negative.
pub proof fn signs_stand_before_digits(digits: Seq<char>)
    requires
        forall|i: int| 0 <= i < digits.len() ==> '0' <= #[trigger] digits[i] <= '9',
    ensures
        digits.len() > 0 ==> unsigned_integer(digits) == Some(decimal_value(digits) as int),
        digits.len() > 0 ==> signed_integer(digits) == Some(decimal_value(digits) as int),
        digits.len() > 0 ==> unsigned_integer(seq!['+'] + digits) == Some(
            decimal_value(digits) as int,
        ),
        digits.len() > 0 ==> signed_integer(seq!['+'] + digits) == Some(
            decimal_value(digits) as int,
        ),
        digits.len() > 0 ==> signed_integer(seq!['-'] + digits) == Some(
            -(decimal_value(digits) as int),
        ),
        unsigned_integer(seq!['-'] + digits) is None,
        digits.len() == 0 ==> unsigned_integer(digits) is None && signed_integer(digits) is None
            && unsigned_integer(seq!['+'] + digits) is None && signed_integer(
            seq!['+'] + digits,
        ) is None && signed_integer(seq!['-'] + digits) is None,
{
    let plus = seq!['+'] + digits;
    let minus = seq!['-'] + digits;
    assert(plus.skip(1) =~= digits);
    assert(minus.skip(1) =~= digits);
    assert(minus[0] == '-');
    if digits.len() > 0 {
        assert('0' <= digits[0] <= '9');
    }
}

/// Text with a character that is no digit, other than a sign at its start, is no integer.
pub proof fn other_characters_make_no_integer(text: Seq<char>, at: int)
    requires
        0 <= at < text.len(),
        !('0' <= text[at] <= '9'),
        at > 0 || (text[at] != '+' && text[at] != '-'),
    ensures
        unsigned_integer(text) is None,
        signed_integer(text) is None,
{
    if at > 0 {
        assert(text.skip(1)[at - 1] == text[at]);
    }
}

/// A number is written without leading zeros.
pub proof fn decimal_has_no_leading_zero(n: nat)
    ensures
        n == 0 ==> decimal(n) == seq!['0'],
        n > 0 ==> decimal(n)[0] != '0',
        decimal(n).len() > 0,
    decreases n,
{
    if n >= 10 {
        decimal_has_no_leading_zero(n / 10);
    }
}

} // verus!
