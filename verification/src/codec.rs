//! Text forms of bytes and numbers.

use vstd::prelude::*;
use vstd::utf8::encode_utf8;
use crate::error::{HexError, IntError};

verus! {

/// The hexadecimal digits, as bytes of text.
pub open spec fn is_hex_digit(b: u8) -> bool {
    ||| 0x30 <= b <= 0x39
    ||| 0x41 <= b <= 0x46
    ||| 0x61 <= b <= 0x66
}

/// The value of a hexadecimal digit.
pub open spec fn hex_digit_value(b: u8) -> int {
    if b <= 0x39 {
        b - 0x30
    } else if b <= 0x46 {
        b - 0x41 + 10
    } else {
        b - 0x61 + 10
    }
}

/// The first byte of `text` that is no hexadecimal digit stands at `i`.
pub open spec fn is_first_non_hex(text: Seq<u8>, i: int) -> bool {
    &&& 0 <= i < text.len()
    &&& !is_hex_digit(text[i])
    &&& forall|j: int| 0 <= j < i ==> is_hex_digit(#[trigger] text[j])
}

/// The bytes that hexadecimal text stands for, two digits for each, or what is wrong with it.
pub open spec fn hex_decoded(text: Seq<u8>) -> Result<Seq<u8>, HexError> {
    if text.len() % 2 != 0 {
        Err(HexError::OddLength)
    } else if exists|i: int| is_first_non_hex(text, i) {
        let i = choose|i: int| is_first_non_hex(text, i);
        Err(HexError::InvalidHexCharacter { c: text[i] as char, index: i as usize })
    } else {
        Ok(
            Seq::new(
                text.len() / 2,
                |k: int|
                    (16 * hex_digit_value(text[2 * k]) + hex_digit_value(text[2 * k + 1])) as u8,
            ),
        )
    }
}

/// The number that a run of decimal digits stands for.
pub open spec fn digits_value(digits: Seq<char>) -> int
    decreases digits.len(),
{
    if digits.len() == 0 {
        0
    } else {
        10 * digits_value(digits.drop_last()) + (digits.last() as int - '0' as int)
    }
}

/// The text is one or more decimal digits.
pub open spec fn is_digits(text: Seq<char>) -> bool {
    text.len() > 0 && forall|i: int| 0 <= i < text.len() ==> '0' <= #[trigger] text[i] <= '9'
}

/// The number that a decimal text stands for: an optional sign and one or more digits.
pub open spec fn decimal_value(text: Seq<char>) -> Option<int> {
    if is_digits(text) {
        Some(digits_value(text))
    } else if text.len() > 0 && text[0] == '+' && is_digits(text.drop_first()) {
        Some(digits_value(text.drop_first()))
    } else if text.len() > 0 && text[0] == '-' && is_digits(text.drop_first()) {
        Some(-digits_value(text.drop_first()))
    } else {
        None
    }
}

/// What is wrong, by `i8::from_str_radix` with radix ten, with text of several characters that is
/// no decimal number.
pub uninterp spec fn parse_i8_error(text: Seq<char>) -> IntError;

/// The number of one byte that a decimal text stands for, or what is wrong with it.
pub open spec fn i8_parsed(text: Seq<char>) -> Result<int, IntError> {
    match decimal_value(text) {
        Some(value) => if value > i8::MAX {
            Err(IntError::PosOverflow)
        } else if value < i8::MIN {
            Err(IntError::NegOverflow)
        } else {
            Ok(value)
        },
        None => if text.len() == 0 {
            Err(IntError::Empty)
        } else if text.len() == 1 {
            Err(IntError::InvalidDigit)
        } else {
            Err(parse_i8_error(text))
        },
    }
}

/// The text with every `from` replaced by `to`.
pub open spec fn replaced(text: Seq<char>, from: char, to: char) -> Seq<char> {
    text.map_values(|c: char| if c == from { to } else { c })
}

/// Calls `hex::decode`. Trusted: text of an odd number of bytes is refused for its length, other
/// text for its first byte that is no digit in either case, and what is left gives one byte for
/// every two digits, the high one first.
#[verifier::external_body]
pub(crate) fn hex_decode(text: &str) -> (data: Result<Vec<u8>, HexError>)
    ensures
        match data {
            Ok(bytes) => hex_decoded(encode_utf8(text@)) == Ok::<Seq<u8>, HexError>(bytes@),
            Err(error) => hex_decoded(encode_utf8(text@)) == Err::<Seq<u8>, HexError>(error),
        },
{
    hex::decode(text).map_err(
        |error| match error {
            hex::FromHexError::InvalidHexCharacter { c, index } => {
                HexError::InvalidHexCharacter { c, index }
            },
            hex::FromHexError::OddLength => HexError::OddLength,
            hex::FromHexError::InvalidStringLength => HexError::InvalidStringLength,
        },
    )
}

/// Calls `str::replace` with a character to look for and one to put in its place. Trusted: every
/// occurrence is replaced and nothing else changes.
#[verifier::external_body]
pub(crate) fn replace(text: &str, from: char, to: char) -> (result: String)
    ensures
        result@ == replaced(text@, from, to),
{
    text.replace(from, to.encode_utf8(&mut [0; 4]))
}

/// Calls `i8::from_str_radix` with radix ten. Trusted: the text is accepted exactly if it is an
/// optional sign followed by digits only and the number fits; the result is that number. A number
/// that does not fit is refused as too large or too small, text without a character as empty, and
/// one character that is no digit as such. The error on other text is a function of the text; it
/// is not said which of its faults is told.
#[verifier::external_body]
pub(crate) fn parse_i8(text: &str) -> (number: Result<i8, IntError>)
    ensures
        match number {
            Ok(value) => i8_parsed(text@) == Ok::<int, IntError>(value as int),
            Err(error) => {
                &&& i8_parsed(text@) == Err::<int, IntError>(error)
                &&& decimal_value(text@) is None && text@.len() > 1 ==> error == parse_i8_error(
                    text@,
                )
            },
        },
{
    i8::from_str_radix(text, 10).map_err(
        |error| match error.kind() {
            std::num::IntErrorKind::Empty => IntError::Empty,
            std::num::IntErrorKind::InvalidDigit => IntError::InvalidDigit,
            std::num::IntErrorKind::PosOverflow => IntError::PosOverflow,
            std::num::IntErrorKind::NegOverflow => IntError::NegOverflow,
            _ => IntError::Other,
        },
    )
}

} // verus!
