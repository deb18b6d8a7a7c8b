//! Numbers written out in digits.

use vstd::prelude::*;

verus! {

/// The error of the standard library's integer parsers.
#[verifier::external_type_specification]
#[verifier::external_body]
pub struct ExParseIntError(core::num::ParseIntError);

/// What `c` is worth as a digit in the given base.
pub open spec fn digit_value(c: char, radix: u32) -> Option<nat> {
    let value = if '0' <= c && c <= '9' {
        c as nat - '0' as nat
    } else if 'a' <= c && c <= 'z' {
        c as nat - 'a' as nat + 10
    } else if 'A' <= c && c <= 'Z' {
        c as nat - 'A' as nat + 10
    } else {
        36
    };
    if value < radix {
        Some(value as nat)
    } else {
        None
    }
}

/// The number that a row of digits spells, or `None` where something else stands
/// among them.
pub open spec fn digits_value(digits: Seq<char>, radix: u32) -> Option<nat>
    decreases digits.len(),
{
    if digits.len() == 0 {
        Some(0)
    } else {
        match (digits_value(digits.drop_last(), radix), digit_value(digits.last(), radix)) {
            (Some(high), Some(low)) => Some(high * radix as nat + low),
            _ => None,
        }
    }
}

/// The number that `text` spells: an optional plus sign, and at least one digit.
pub open spec fn unsigned_value(text: Seq<char>, radix: u32) -> Option<nat> {
    let digits = if text.len() > 0 && text[0] == '+' {
        text.skip(1)
    } else {
        text
    };
    if digits.len() == 0 {
        None
    } else {
        digits_value(digits, radix)
    }
}

/// The number that `text` spells, if it fits in sixteen bits.
pub open spec fn u16_value(text: Seq<char>, radix: u32) -> Option<u16> {
    match unsigned_value(text, radix) {
        Some(value) => if value <= u16::MAX {
            Some(value as u16)
        } else {
            None
        },
        None => None,
    }
}

/// The error with which `u16::from_str_radix` turns down `text`.
pub uninterp spec fn u16_error(text: Seq<char>, radix: u32) -> core::num::ParseIntError;

/// Of `u16::from_str_radix` it is taken on trust that it succeeds exactly where
/// the text is an optional plus sign and at least one digit of the base, and the
/// number fits, and that it then gives that number; and that its error depends on
/// the text and the base alone. It panics on a base below 2 or above 36.
pub assume_specification[ u16::from_str_radix ](src: &str, radix: u32) -> (res: Result<
    u16,
    core::num::ParseIntError,
>)
    requires
        2 <= radix <= 36,
    ensures
        res is Ok <==> u16_value(src@, radix) is Some,
        res matches Ok(value) ==> u16_value(src@, radix) == Some(value),
        res matches Err(error) ==> error == u16_error(src@, radix),
;

} // verus!
