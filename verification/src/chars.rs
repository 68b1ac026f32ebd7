//! Character classes of the tokenizer.

use vstd::prelude::*;

verus! {

/// Whether `c` is alphabetic in Unicode's sense (`Alphabetic`), as
/// `char::is_alphabetic` decides it.
pub uninterp spec fn is_alphabetic(c: char) -> bool;

/// Whether `c` is whitespace in Unicode's sense (`White_Space`), as
/// `char::is_whitespace` decides it.
pub uninterp spec fn is_whitespace(c: char) -> bool;

/// Calls `char::is_alphabetic`. Trusted, not proved: the result depends on
/// the character alone. Which characters Unicode counts as alphabetic is a
/// long table, so the result is given the name [`is_alphabetic`] and the table
/// is not spelled out.
#[verifier::external_body]
pub(crate) fn alphabetic(c: char) -> (r: bool)
    ensures
        r == is_alphabetic(c),
{
    c.is_alphabetic()
}

/// Calls `char::is_whitespace`. Trusted, not proved: the result depends on
/// the character alone. Which characters Unicode counts as whitespace is a
/// table of its own, so the result is given the name [`is_whitespace`] and the
/// table is not spelled out.
#[verifier::external_body]
pub(crate) fn whitespace(c: char) -> (r: bool)
    ensures
        r == is_whitespace(c),
{
    c.is_whitespace()
}

/// `c` opens and closes a string literal.
pub open spec fn is_quote(c: char) -> bool {
    c == '\'' || c == '"'
}

/// `c` is one of the ten decimal digits `0` to `9`.
pub open spec fn is_digit(c: char) -> bool {
    '0' <= c && c <= '9'
}

/// Decides [`is_digit`].
pub fn digit(c: char) -> (r: bool)
    ensures
        r == is_digit(c),
{
    '0' <= c && c <= '9'
}

} // verus!
