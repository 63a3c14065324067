//! A minimal parser-combinator foundation: composable primitives for building
//! recursive-descent parsers over text, with the behaviour of every parser
//! pinned down by its contract.
//!
//! The pieces: the [`Parser`] contract; two leaf parsers, [`match_literal`]
//! (an exact fixed string) and [`identifier`] (an alphabetic-first,
//! alphabetic-or-dash-continuation token); and the combinators [`combine::map`],
//! [`pair`], [`left`] and [`right`], which compose parsers of different value
//! types while threading the remaining input and propagating failures
//! verbatim. Input positions are counted in Unicode codepoints.

mod chars;
pub mod combine;
mod element;
mod ident;
mod literal;
mod parse;

pub use chars::char_is_alphabetic;
pub use chars::is_identifier_char;
pub use combine::KeepFirst;
pub use combine::KeepSecond;
pub use combine::MapParser;
pub use combine::PairParser;
pub use combine::left;
pub use combine::lemma_left_matches_pair;
pub use combine::lemma_pair_fail;
pub use combine::lemma_right_matches_pair;
pub use combine::pair;
pub use combine::right;
pub use element::Element;
pub use ident::Identifier;
pub use ident::identifier;
pub use ident::identifier_accepts;
pub use ident::identifier_end;
pub use ident::identifier_remaining;
pub use ident::identifier_value;
pub use ident::lemma_identifier_end_bounds;
pub use ident::lemma_identifier_round_trip;
pub use literal::MatchLiteral;
pub use literal::lemma_literal_mismatch_fails;
pub use literal::lemma_literal_parses_itself;
pub use literal::lemma_literal_parses_prefix;
pub use literal::literal_matches;
pub use literal::match_literal;
pub use parse::ParseResult;
pub use parse::Parser;
pub use parse::Transform;
pub use parse::is_suffix_of;
pub use parse::lemma_suffix_transitive;

use vstd::prelude::*;

verus! {

/// A demonstration leaf parser: consume one letter `'a'` at the head of the
/// input, producing no value. Succeeds exactly when the input starts with
/// `'a'`; fails handing back the whole input otherwise.
pub fn the_letter_a<'a>(input: &'a str) -> (r: Result<(&'a str, ()), &'a str>)
    ensures
        match r {
            Ok((remaining, _)) => {
                &&& input@.len() > 0
                &&& input@[0] == 'a'
                &&& remaining@ == input@.subrange(1, input@.len() as int)
            },
            Err(err) => {
                &&& (input@.len() == 0 || input@[0] != 'a')
                &&& err@ == input@
            },
        },
{
    let input_len: usize = input.unicode_len();
    if input_len > 0 && input.get_char(0) == 'a' {
        Ok((input.substring_char(1, input_len), ()))
    } else {
        Err(input)
    }
}

} // verus!
