//! Character classification for the `identifier` leaf parser.
//!
//! Whether a character is alphabetic is decided by the Unicode `Alphabetic`
//! property, which std implements; its result is a function of the character
//! alone, so it is given a name here and every contract speaks of that name.

use vstd::prelude::*;

verus! {

/// Whether `c` has the Unicode `Alphabetic` property, as decided by
/// `char::is_alphabetic`.
pub uninterp spec fn char_is_alphabetic(c: char) -> bool;

/// Relies on `char::is_alphabetic` of std: whether a character is alphabetic
/// depends on the character alone.
#[verifier::external_body]
pub(crate) fn alphabetic(c: char) -> (r: bool)
    ensures
        r == char_is_alphabetic(c),
{
    c.is_alphabetic()
}

/// A character that may continue an identifier: alphabetic or a dash.
pub open spec fn is_identifier_char(c: char) -> bool {
    char_is_alphabetic(c) || c == '-'
}

/// Executable counterpart of [`is_identifier_char`].
pub(crate) fn is_identifier(c: char) -> (r: bool)
    ensures
        r == is_identifier_char(c),
{
    alphabetic(c) || c == '-'
}

} // verus!
