//! The identifier matcher: consume a maximal-length name token whose first
//! character is alphabetic and whose continuation characters are alphabetic or
//! a dash.

use vstd::prelude::*;

use crate::chars::char_is_alphabetic;
use crate::chars::is_identifier;
use crate::chars::is_identifier_char;
use crate::parse::Parser;
use crate::parse::ParseResult;

verus! {

/// The position at which an identifier's continuation scan stops when it is
/// already at position `i`: the first position at or after `i` holding a
/// character that is neither alphabetic nor a dash, or the end of the input.
pub open spec fn identifier_end(input: Seq<char>, i: int) -> int
    recommends
        0 <= i <= input.len(),
    decreases input.len() - i when 0 <= i <= input.len()
{
    if i < 0 || i >= input.len() {
        i
    } else if is_identifier_char(input[i]) {
        identifier_end(input, i + 1)
    } else {
        i
    }
}

pub proof fn lemma_identifier_end_bounds(input: Seq<char>, i: int)
    requires
        0 <= i <= input.len(),
    ensures
        i <= identifier_end(input, i) <= input.len(),
    decreases input.len() - i,
{
    if i < input.len() && is_identifier_char(input[i]) {
        lemma_identifier_end_bounds(input, i + 1);
    }
}

/// Does `identifier` succeed on `input`? Exactly when the input is non-empty
/// and its first character is alphabetic.
pub open spec fn identifier_accepts(input: Seq<char>) -> bool {
    input.len() > 0 && char_is_alphabetic(input[0])
}

/// The token `identifier` produces on an accepted input: the first character
/// and every following alphabetic-or-dash character, up to the first character
/// that is neither or the end of the input.
pub open spec fn identifier_value(input: Seq<char>) -> Seq<char> {
    input.subrange(0, identifier_end(input, 1))
}

/// What `identifier` leaves unconsumed on an accepted input: everything after
/// the produced token.
pub open spec fn identifier_remaining(input: Seq<char>) -> Seq<char> {
    input.subrange(identifier_end(input, 1), input.len() as int)
}

/// Consume a maximal name token: the first character must be alphabetic, and
/// each following character is consumed exactly when it is alphabetic or a
/// dash. On success the produced value is the consumed text as owned string
/// and the remaining input starts at the first unconsumed character; on an
/// empty input or a non-alphabetic first character the whole input is handed
/// back unmodified.
pub fn identifier<'a>(input: &'a str) -> (r: ParseResult<'a, String>)
    ensures
        match r {
            Ok((remaining, value)) => {
                &&& identifier_accepts(input@)
                &&& value@ == identifier_value(input@)
                &&& remaining@ == identifier_remaining(input@)
            },
            Err(err) => {
                &&& !identifier_accepts(input@)
                &&& err@ == input@
            },
        },
{
    let input_len: usize = input.unicode_len();
    if input_len == 0 {
        return Err(input);
    }
    if !crate::chars::alphabetic(input.get_char(0)) {
        return Err(input);
    }
    let mut end: usize = 1;
    while end < input_len && is_identifier(input.get_char(end))
        invariant
            1 <= end <= input_len,
            input_len == input@.len(),
            identifier_end(input@, 1) == identifier_end(input@, end as int),
        decreases input_len - end,
    {
        proof {
            assert(identifier_end(input@, end as int) == identifier_end(input@, end as int + 1));
        }
        end += 1;
    }
    proof {
        assert(identifier_end(input@, end as int) == end);
    }
    let matched: String = input.substring_char(0, end).to_owned();
    Ok((input.substring_char(end, input_len), matched))
}

/// A parser value for [`identifier`], so it can stand as an operand of the
/// combinators: the lifting of the plain function into the parser contract.
pub struct Identifier;

impl Parser for Identifier {
    type Output = String;

    /// Success: the first character is alphabetic; the value is the maximal
    /// alphabetic-or-dash token from the start, the remaining input all that
    /// follows it.
    open spec fn spec_ok(&self, input: Seq<char>, remaining: Seq<char>, value: String) -> bool {
        &&& identifier_accepts(input)
        &&& value@ == identifier_value(input)
        &&& remaining == identifier_remaining(input)
    }

    /// Failure: the input is empty or starts with a non-alphabetic character;
    /// the whole input is handed back unmodified.
    open spec fn spec_fail(&self, input: Seq<char>, err: Seq<char>) -> bool {
        &&& !identifier_accepts(input)
        &&& err == input
    }

    fn parse<'a>(&self, input: &'a str) -> (r: ParseResult<'a, String>) {
        identifier(input)
    }

    proof fn lemma_ok_suffix(&self, input: Seq<char>, remaining: Seq<char>, value: String) {
        lemma_identifier_end_bounds(input, 1);
        assert(input =~= input.subrange(0, identifier_end(input, 1)) + remaining);
    }

    proof fn lemma_fail_suffix(&self, input: Seq<char>, err: Seq<char>) {
        assert(input =~= Seq::<char>::empty() + err);
    }
}

/// The identifier round trip: on any accepted input, the produced token
/// followed by the remaining input is the original input exactly — no
/// character is lost or duplicated.
pub proof fn lemma_identifier_round_trip(input: Seq<char>)
    requires
        identifier_accepts(input),
    ensures
        identifier_value(input) + identifier_remaining(input) == input,
{
    lemma_identifier_end_bounds(input, 1);
    assert(identifier_value(input) + identifier_remaining(input) =~= input);
}

} // verus!
