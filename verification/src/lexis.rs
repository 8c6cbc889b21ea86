//! The character classes that the recognizers share.

use vstd::prelude::*;

verus! {

/// The insignificant whitespace of a document: space, line feed and carriage return.
pub open spec fn is_whitespace(c: char) -> bool {
    c == ' ' || c == '\n' || c == '\r'
}

/// A decimal digit.
pub open spec fn is_digit(c: char) -> bool {
    '0' <= c && c <= '9'
}

/// A sign, as it may open a number or its exponent.
pub open spec fn is_sign(c: char) -> bool {
    c == '-' || c == '+'
}

/// The letter that opens an exponent.
pub open spec fn is_exponent_mark(c: char) -> bool {
    c == 'e' || c == 'E'
}

/// A character that a number may be made of.
pub open spec fn is_number_char(c: char) -> bool {
    is_digit(c) || is_sign(c) || c == '.' || is_exponent_mark(c)
}

/// A character with which a number may begin.
pub open spec fn is_number_start(c: char) -> bool {
    is_digit(c) || c == '-'
}

/// A character that a string body holds only as an escape.
pub open spec fn is_raw_control(c: char) -> bool {
    c == '\x08' || c == '\x0c' || c == '\n' || c == '\r' || c == '\t'
}

/// The value of a hexadecimal digit, of either case; `None` for any other character.
pub open spec fn hex_value(c: char) -> Option<u8> {
    if '0' <= c && c <= '9' {
        Some((c as u8 - '0' as u8) as u8)
    } else if 'a' <= c && c <= 'f' {
        Some((c as u8 - 'a' as u8 + 10) as u8)
    } else if 'A' <= c && c <= 'F' {
        Some((c as u8 - 'A' as u8 + 10) as u8)
    } else {
        None
    }
}

/// Tells whether `c` is insignificant whitespace.
pub fn whitespace(c: char) -> (r: bool)
    ensures
        r == is_whitespace(c),
{
    c == ' ' || c == '\n' || c == '\r'
}

/// Tells whether `c` is a decimal digit.
pub fn digit(c: char) -> (r: bool)
    ensures
        r == is_digit(c),
{
    '0' <= c && c <= '9'
}

/// Tells whether `c` may be part of a number.
pub fn number_char(c: char) -> (r: bool)
    ensures
        r == is_number_char(c),
{
    digit(c) || c == '-' || c == '+' || c == '.' || c == 'e' || c == 'E'
}

/// Tells whether `c` may begin a number.
pub fn number_start(c: char) -> (r: bool)
    ensures
        r == is_number_start(c),
{
    digit(c) || c == '-'
}

/// Tells whether `c` must be escaped inside a string.
pub fn raw_control(c: char) -> (r: bool)
    ensures
        r == is_raw_control(c),
{
    c == '\x08' || c == '\x0c' || c == '\n' || c == '\r' || c == '\t'
}

} // verus!
