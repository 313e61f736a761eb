//! Character classes and string building, as std provides them.
use vstd::prelude::*;

verus! {

/// Whether a character has the Unicode `White_Space` property.
pub uninterp spec fn white_space(c: char) -> bool;

/// Whether a character is Unicode alphabetic or numeric.
pub uninterp spec fn alphanumeric(c: char) -> bool;

/// Whether a character has the Unicode `Alphabetic` property.
pub uninterp spec fn alphabetic(c: char) -> bool;

pub open spec fn is_ascii_char(c: char) -> bool {
    (c as u32) < 128
}

pub open spec fn ascii_letter(c: char) -> bool {
    ('a' <= c && c <= 'z') || ('A' <= c && c <= 'Z')
}

/// Whitespace: on ASCII, space and the controls from tab to carriage return.
pub open spec fn space(c: char) -> bool {
    if is_ascii_char(c) {
        c == ' ' || ('\t' <= c && c <= '\r')
    } else {
        white_space(c)
    }
}

/// A letter: on ASCII, `a` to `z` and `A` to `Z`.
pub open spec fn letter(c: char) -> bool {
    if is_ascii_char(c) {
        ascii_letter(c)
    } else {
        alphabetic(c)
    }
}

/// A letter or a numeric character: on ASCII, letters and decimal digits.
pub open spec fn letter_or_digit(c: char) -> bool {
    if is_ascii_char(c) {
        ascii_letter(c) || ('0' <= c && c <= '9')
    } else {
        alphanumeric(c)
    }
}

/// Relies on `char::is_whitespace`: true exactly for `White_Space` characters,
/// which on ASCII are space and tab through carriage return.
#[verifier::external_body]
pub(crate) fn is_space(c: char) -> (r: bool)
    ensures
        r == white_space(c),
        r == space(c),
{
    c.is_whitespace()
}

/// Relies on `char::is_alphanumeric`: alphabetic or numeric characters, which
/// on ASCII are the letters and the decimal digits.
#[verifier::external_body]
pub(crate) fn is_alnum(c: char) -> (r: bool)
    ensures
        r == alphanumeric(c),
        r == letter_or_digit(c),
{
    c.is_alphanumeric()
}

/// Relies on `char::is_alphabetic`: characters with the `Alphabetic` property,
/// which on ASCII are the letters.
#[verifier::external_body]
pub(crate) fn is_letter(c: char) -> (r: bool)
    ensures
        r == alphabetic(c),
        r == letter(c),
{
    c.is_alphabetic()
}

/// Relies on `String::push`: appends one character at the end.
#[verifier::external_body]
pub(crate) fn push_char(s: &mut String, c: char)
    ensures
        final(s)@ == old(s)@.push(c),
{
    s.push(c)
}

} // verus!
