//! The literal matcher: a parser that succeeds exactly when the input begins
//! with a fixed string chosen at construction time.

use vstd::prelude::*;

use crate::parse::Parser;
use crate::parse::ParseResult;

verus! {

/// Does `input` begin with `expected`, character for character?
pub open spec fn literal_matches(expected: Seq<char>, input: Seq<char>) -> bool {
    &&& expected.len() <= input.len()
    &&& input.subrange(0, expected.len() as int) == expected
}

/// A parser that matches one exact, case-sensitive string and produces the
/// unit value: only the fact of the match matters. It owns the string it was
/// built from and may be invoked any number of times.
pub struct MatchLiteral {
    /// The exact string the parser matches at the head of its input.
    pub expected: String,
}

/// Build a parser that succeeds exactly when the input begins with `expected`,
/// consuming just that prefix. Matching is case-sensitive and
/// Unicode-codepoint-exact. An empty `expected` always succeeds without
/// consuming anything.
pub fn match_literal(expected: &str) -> (r: MatchLiteral)
    ensures
        r.expected@ == expected@,
{
    MatchLiteral { expected: expected.to_owned() }
}

impl Parser for MatchLiteral {
    type Output = ();

    /// Success: the input begins with the expected string; the remaining input
    /// is the input with exactly that prefix removed.
    open spec fn spec_ok(&self, input: Seq<char>, remaining: Seq<char>, value: ()) -> bool {
        &&& literal_matches(self.expected@, input)
        &&& remaining == input.subrange(self.expected@.len() as int, input.len() as int)
    }

    /// Failure: the input is shorter than the expected string or differs from
    /// it somewhere; the whole input is handed back unmodified.
    open spec fn spec_fail(&self, input: Seq<char>, err: Seq<char>) -> bool {
        &&& !literal_matches(self.expected@, input)
        &&& err == input
    }

    fn parse<'a>(&self, input: &'a str) -> (r: ParseResult<'a, ()>) {
        let expected: &str = self.expected.as_str();
        let expected_len: usize = expected.unicode_len();
        let input_len: usize = input.unicode_len();
        if expected_len > input_len {
            return Err(input);
        }
        let mut i: usize = 0;
        while i < expected_len
            invariant
                i <= expected_len <= input_len,
                expected@ == self.expected@,
                expected_len == self.expected@.len(),
                input_len == input@.len(),
                forall|j: int| 0 <= j < i ==> input@[j] == self.expected@[j],
            decreases expected_len - i,
        {
            if input.get_char(i) != expected.get_char(i) {
                proof {
                    if literal_matches(self.expected@, input@) {
                        assert(input@.subrange(0, self.expected@.len() as int)[i as int]
                            == self.expected@[i as int]);
                    }
                }
                return Err(input);
            }
            i += 1;
        }
        proof {
            assert(input@.subrange(0, self.expected@.len() as int) =~= self.expected@);
        }
        Ok((input.substring_char(expected_len, input_len), ()))
    }

    proof fn lemma_ok_suffix(&self, input: Seq<char>, remaining: Seq<char>, value: ()) {
        let n = self.expected@.len() as int;
        assert(input =~= input.subrange(0, n) + remaining);
    }

    proof fn lemma_fail_suffix(&self, input: Seq<char>, err: Seq<char>) {
        assert(input =~= Seq::<char>::empty() + err);
    }
}

/// Parsing exactly the expected string succeeds, consumes all of it, and
/// produces the unit value: nothing remains.
pub proof fn lemma_literal_parses_itself(p: MatchLiteral)
    ensures
        p.spec_ok(p.expected@, Seq::<char>::empty(), ()),
{
    let e = p.expected@;
    assert(e.subrange(0, e.len() as int) =~= e);
    assert(e.subrange(e.len() as int, e.len() as int) =~= Seq::<char>::empty());
}

/// Parsing the expected string followed by trailing text that does not itself
/// begin with the expected string succeeds and leaves exactly that trailing
/// text as the remaining input.
pub proof fn lemma_literal_parses_prefix(p: MatchLiteral, tail: Seq<char>)
    requires
        !literal_matches(p.expected@, tail),
    ensures
        p.spec_ok(p.expected@ + tail, tail, ()),
{
    let e = p.expected@;
    let input = e + tail;
    assert(input.subrange(0, e.len() as int) =~= e);
    assert(input.subrange(e.len() as int, input.len() as int) =~= tail);
}

/// On input that does not begin with the expected string — a shorter input
/// included — the literal parser can only fail, handing back the original
/// input unchanged.
pub proof fn lemma_literal_mismatch_fails(p: MatchLiteral, input: Seq<char>)
    requires
        !literal_matches(p.expected@, input),
    ensures
        p.spec_fail(input, input),
        forall|remaining: Seq<char>| !p.spec_ok(input, remaining, ()),
{
}

} // verus!
