//! Character classes, and the operations of the standard library on
//! characters and strings that the lexer and the parser rely on.
//!
//! The contracts given here to functions of the standard library are assumed,
//! not proved. The Unicode tables behind `char::is_whitespace`,
//! `char::is_alphabetic`, `char::is_alphanumeric` and `str::to_uppercase` are
//! not restated: each result is given a name, and the library's contracts
//! speak of those names.

use vstd::prelude::*;

verus! {

/// Whether `c` has the Unicode `White_Space` property: what
/// `char::is_whitespace` returns.
pub uninterp spec fn unicode_whitespace(c: char) -> bool;

/// Whether `c` has the Unicode `Alphabetic` property: what
/// `char::is_alphabetic` returns.
pub uninterp spec fn unicode_alphabetic(c: char) -> bool;

/// Whether `c` belongs to one of the Unicode general categories for numbers,
/// `Nd`, `Nl` and `No`: what `char::is_numeric` returns.
pub uninterp spec fn unicode_numeric(c: char) -> bool;

/// The Unicode upper-case form of a string: what `str::to_uppercase` returns.
pub uninterp spec fn unicode_uppercase(s: Seq<char>) -> Seq<char>;

/// Assumed of `char::is_whitespace`: it tells whether its argument has the
/// `White_Space` property.
pub assume_specification[ char::is_whitespace ](c: char) -> (b: bool)
    ensures
        b == unicode_whitespace(c),
;

/// Assumed of `char::is_alphabetic`: it tells whether its argument has the
/// `Alphabetic` property.
pub assume_specification[ char::is_alphabetic ](c: char) -> (b: bool)
    ensures
        b == unicode_alphabetic(c),
;

/// Assumed of `char::is_alphanumeric`: it holds of exactly the characters of
/// which `char::is_alphabetic` or `char::is_numeric` holds.
pub assume_specification[ char::is_alphanumeric ](c: char) -> (b: bool)
    ensures
        b == (unicode_alphabetic(c) || unicode_numeric(c)),
;

/// Assumed of `str::to_uppercase`: it returns the upper-case form of the
/// string, which depends on the characters of the string alone.
pub assume_specification[ str::to_uppercase ](s: &str) -> (upper: String)
    ensures
        upper@ == unicode_uppercase(s@),
;

/// Assumed of `String::push`: it appends the character to the end of the
/// string.
pub assume_specification[ String::push ](s: &mut String, c: char)
    ensures
        final(s)@ == old(s)@.push(c),
;

/// Assumed of `==` on string slices: two slices are equal exactly where they
/// hold the same characters.
pub assume_specification[ <str as PartialEq>::eq ](a: &str, b: &str) -> (same: bool)
    ensures
        same == (a@ == b@),
;

/// Assumed of `str::eq_ignore_ascii_case`: it tells whether the two strings
/// are equal once the ASCII letters `A` to `Z` of each are mapped to `a` to
/// `z` and every other character is left as it is.
pub assume_specification[ str::eq_ignore_ascii_case ](a: &str, b: &str) -> (same: bool)
    ensures
        same == eq_ignoring_ascii_case(a@, b@),
;

/// `c` with an ASCII capital letter replaced by its small letter.
pub open spec fn ascii_lowercase_char(c: char) -> char {
    if 'A' <= c <= 'Z' {
        ((c as int) + 32) as char
    } else {
        c
    }
}

/// `s` with every ASCII capital letter replaced by its small letter.
pub open spec fn ascii_lowercase(s: Seq<char>) -> Seq<char> {
    s.map_values(|c: char| ascii_lowercase_char(c))
}

/// Equality up to the case of ASCII letters.
pub open spec fn eq_ignoring_ascii_case(a: Seq<char>, b: Seq<char>) -> bool {
    ascii_lowercase(a) == ascii_lowercase(b)
}

/// The ASCII decimal digits `0` to `9`.
pub open spec fn is_ascii_digit(c: char) -> bool {
    '0' <= c <= '9'
}

/// A character that may continue a numeric literal: a digit or a dot.
pub open spec fn is_number_part(c: char) -> bool {
    is_ascii_digit(c) || c == '.'
}

/// A character that may start an identifier or a keyword.
pub open spec fn is_identifier_start(c: char) -> bool {
    unicode_alphabetic(c) || c == '_'
}

/// A character that may continue an identifier or a keyword.
pub open spec fn is_identifier_part(c: char) -> bool {
    unicode_alphabetic(c) || unicode_numeric(c) || c == '_'
}

/// The number that an ASCII digit stands for.
pub open spec fn digit_value(c: char) -> nat
    recommends
        is_ascii_digit(c),
{
    (c as int - '0' as int) as nat
}

/// The number that a run of ASCII digits denotes in base ten.
pub open spec fn decimal_value(digits: Seq<char>) -> nat
    decreases digits.len(),
{
    if digits.len() == 0 {
        0
    } else {
        10 * decimal_value(digits.drop_last()) + digit_value(digits.last())
    }
}

/// What a run of ASCII digits is read as: its value where that fits a signed
/// 64-bit integer, zero where it does not.
pub open spec fn integer_literal_value(digits: Seq<char>) -> i64 {
    if decimal_value(digits) <= i64::MAX {
        decimal_value(digits) as i64
    } else {
        0
    }
}

/// Tests for an ASCII decimal digit.
pub(crate) fn char_is_ascii_digit(c: char) -> (b: bool)
    ensures
        b == is_ascii_digit(c),
{
    '0' <= c && c <= '9'
}

/// Tests whether a string holds a dot.
pub(crate) fn contains_dot(s: &str) -> (found: bool)
    ensures
        found == s@.contains('.'),
{
    let mut found = false;
    for c in it: s.chars()
        invariant
            it.seq() == s@,
            found == it.seq().take(it.index() as int).contains('.'),
    {
        proof {
            let before = it.seq().take(it.index() as int);
            let after = it.seq().take(it.index() + 1);
            assert(after == before.push(c));
            if before.contains('.') {
                let k = before.index_of('.');
                assert(after[k] == '.');
            }
            if c == '.' {
                assert(after.last() == '.');
            }
        }
        if c == '.' {
            found = true;
        }
    }
    proof {
        assert(s@.take(s@.len() as int) == s@);
    }
    found
}

/// Reads a run of ASCII digits as a signed 64-bit integer, and as zero where
/// its value does not fit.
pub(crate) fn parse_integer_literal(digits: &str) -> (value: i64)
    requires
        forall|i: int| 0 <= i < digits@.len() ==> is_ascii_digit(#[trigger] digits@[i]),
    ensures
        value == integer_literal_value(digits@),
{
    let mut value: i64 = 0;
    let mut fits = true;
    for c in it: digits.chars()
        invariant
            it.seq() == digits@,
            forall|i: int| 0 <= i < digits@.len() ==> is_ascii_digit(#[trigger] digits@[i]),
            fits ==> value == decimal_value(it.seq().take(it.index() as int)),
            !fits ==> decimal_value(it.seq().take(it.index() as int)) > i64::MAX,
    {
        proof {
            let before = it.seq().take(it.index() as int);
            let after = it.seq().take(it.index() + 1);
            assert(after.drop_last() == before);
        }
        if fits {
            let digit: i64 = (c as u32 - '0' as u32) as i64;
            match value.checked_mul(10) {
                Some(shifted) => match shifted.checked_add(digit) {
                    Some(next) => {
                        value = next;
                    },
                    None => {
                        fits = false;
                    },
                },
                None => {
                    fits = false;
                },
            }
        }
    }
    proof {
        assert(digits@.take(digits@.len() as int) == digits@);
    }
    if fits {
        value
    } else {
        0
    }
}

} // verus!
