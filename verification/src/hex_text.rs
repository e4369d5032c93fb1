//! Bytes as hexadecimal text.

use vstd::prelude::*;

use crate::text::digit_char;

verus! {

/// The value of a hexadecimal digit, in upper or lower case.
pub open spec fn hex_value(c: char) -> Option<int> {
    if '0' <= c <= '9' {
        Some(c as int - '0' as int)
    } else if 'a' <= c <= 'f' {
        Some(c as int - 'a' as int + 10)
    } else if 'A' <= c <= 'F' {
        Some(c as int - 'A' as int + 10)
    } else {
        None
    }
}

/// Whether `text` is made of pairs of hexadecimal digits.
pub open spec fn is_hex(text: Seq<char>) -> bool {
    &&& text.len() % 2 == 0
    &&& forall|i: int| 0 <= i < text.len() ==> hex_value(#[trigger] text[i]) is Some
}

/// The bytes that pairs of hexadecimal digits stand for.
pub open spec fn hex_bytes(text: Seq<char>) -> Seq<u8> {
    Seq::new(
        (text.len() / 2) as nat,
        |i: int| (hex_value(text[2 * i])->0 * 16 + hex_value(text[2 * i + 1])->0) as u8,
    )
}

/// Bytes as pairs of hexadecimal digits in lower case.
pub open spec fn hex_of(bytes: Seq<u8>) -> Seq<char> {
    Seq::new(
        2 * bytes.len(),
        |i: int|
            digit_char(
                if i % 2 == 0 {
                    bytes[i / 2] as int / 16
                } else {
                    bytes[i / 2] as int % 16
                },
            ),
    )
}

/// The bytes that pairs of hexadecimal digits stand for.
///
/// Calls `hex::decode`. Claimed: it succeeds exactly when the text is made of pairs of
/// hexadecimal digits, and then gives the byte of each pair.
#[verifier::external_body]
pub(crate) fn decode_hex(text: &str) -> (bytes: Option<Vec<u8>>)
    ensures
        match bytes {
            Some(bytes) => is_hex(text@) && bytes@ == hex_bytes(text@),
            None => !is_hex(text@),
        },
{
    hex::decode(text).ok()
}

/// Bytes as pairs of hexadecimal digits in lower case.
///
/// Calls `hex::encode`. Claimed: it gives the two digits of each byte, in lower case.
#[verifier::external_body]
pub(crate) fn encode_hex(bytes: &[u8]) -> (text: String)
    ensures
        text@ == hex_of(bytes@),
{
    hex::encode(bytes)
}

/// Bytes are read back from their hexadecimal text.
pub proof fn hex_is_read_back(bytes: Seq<u8>)
    ensures
        is_hex(hex_of(bytes)),
        hex_bytes(hex_of(bytes)) == bytes,
{
    let text = hex_of(bytes);
    assert forall|i: int| 0 <= i < text.len() implies hex_value(#[trigger] text[i]) == Some(
        if i % 2 == 0 {
            bytes[i / 2] as int / 16
        } else {
            bytes[i / 2] as int % 16
        },
    ) by {}
    assert forall|i: int| 0 <= i < bytes.len() implies hex_bytes(text)[i] == #[trigger] bytes[i] by {
        assert(hex_value(text[2 * i]) == Some(bytes[i] as int / 16));
        assert(hex_value(text[2 * i + 1]) == Some(bytes[i] as int % 16));
    }
    assert(hex_bytes(text) =~= bytes);
}

/// A hexadecimal digit has the same value in upper and in lower case; no other character
/// has one.
pub proof fn digits_have_their_value(d: int, c: char)
    ensures
        0 <= d < 10 ==> hex_value(('0' as int + d) as char) == Some(d),
        10 <= d < 16 ==> hex_value(('a' as int + d - 10) as char) == Some(d) && hex_value(
            ('A' as int + d - 10) as char,
        ) == Some(d),
        hex_value(c) is Some <==> '0' <= c <= '9' || 'a' <= c <= 'f' || 'A' <= c <= 'F',
{
}

/// Each byte gives two digits, the higher half before the lower, and the text of two runs
/// of bytes is the two texts.
pub proof fn bytes_are_written_in_order(first: Seq<u8>, byte: u8, second: Seq<u8>)
    ensures
        hex_of(seq![byte]) == seq![
            digit_char(byte as int / 16),
            digit_char(byte as int % 16),
        ],
        hex_of(first + second) == hex_of(first) + hex_of(second),
{
    assert(hex_of(seq![byte]) =~= seq![
        digit_char(byte as int / 16),
        digit_char(byte as int % 16),
    ]);
    assert(hex_of(first + second) =~= hex_of(first) + hex_of(second)) by {
        assert forall|i: int| 0 <= i < 2 * (first.len() + second.len()) implies #[trigger] hex_of(
            first + second,
        )[i] == (hex_of(first) + hex_of(second))[i] by {
            if i >= 2 * first.len() {
                assert(i / 2 - first.len() == (i - 2 * first.len()) / 2);
                assert((first + second)[i / 2] == second[i / 2 - first.len()]);
            }
        }
    }
}

/// Each pair of digits gives a byte, in order.
pub proof fn pairs_of_digits_give_bytes(text: Seq<char>, at: int)
    requires
        is_hex(text),
        0 <= at < text.len() / 2,
    ensures
        hex_bytes(text).len() * 2 == text.len(),
        hex_bytes(text)[at] == hex_value(text[2 * at])->0 * 16 + hex_value(text[2 * at + 1])->0,
{
    assert(hex_value(text[2 * at]) is Some);
    assert(hex_value(text[2 * at + 1]) is Some);
}

} // verus!
