//! The combinators: build new parsers out of existing ones without ever
//! inspecting the input themselves.
//!
//! `map` adapts a parser's produced value through a pure transformation;
//! `pair` sequences two parsers and keeps both values; `left` and `right` are
//! built purely out of `pair` and `map`, keeping one value and discarding the
//! other. Failures are propagated verbatim: a combinator never suppresses,
//! converts, or adds to an inner failure.

use vstd::prelude::*;

use crate::parse::Parser;
use crate::parse::ParseResult;
use crate::parse::Transform;
use crate::parse::lemma_suffix_transitive;

verus! {

/// The parser built by [`map`]: runs the inner parser, then applies the
/// transformation to a successful value. The remaining input and the
/// success/failure classification are untouched.
pub struct MapParser<P, F> {
    /// The parser whose successful value is transformed.
    pub parser: P,
    /// The transformation applied to that value.
    pub map_fn: F,
}

impl<P: Parser, F: Transform<P::Output>> Parser for MapParser<P, F> {
    type Output = F::Out;

    /// Success: the inner parser succeeds with the same remaining input and
    /// some value whose transformation is the produced value.
    open spec fn spec_ok(&self, input: Seq<char>, remaining: Seq<char>, value: F::Out) -> bool {
        exists|a: P::Output|
            self.parser.spec_ok(input, remaining, a) && value == self.map_fn.spec_apply(a)
    }

    /// Failure: exactly the inner parser's failure, propagated unchanged; the
    /// transformation is never involved.
    open spec fn spec_fail(&self, input: Seq<char>, err: Seq<char>) -> bool {
        self.parser.spec_fail(input, err)
    }

    fn parse<'a>(&self, input: &'a str) -> (r: ParseResult<'a, F::Out>) {
        match self.parser.parse(input) {
            Ok((next_input, result)) => {
                let mapped = self.map_fn.apply(result);
                proof {
                    assert(self.parser.spec_ok(input@, next_input@, result)
                        && mapped == self.map_fn.spec_apply(result));
                }
                Ok((next_input, mapped))
            },
            Err(err) => Err(err),
        }
    }

    proof fn lemma_ok_suffix(&self, input: Seq<char>, remaining: Seq<char>, value: F::Out) {
        let a = choose|a: P::Output|
            self.parser.spec_ok(input, remaining, a) && value == self.map_fn.spec_apply(a);
        self.parser.lemma_ok_suffix(input, remaining, a);
    }

    proof fn lemma_fail_suffix(&self, input: Seq<char>, err: Seq<char>) {
        self.parser.lemma_fail_suffix(input, err);
    }
}

/// Adapt a parser of one value type into a parser of another by applying a
/// pure transformation to each successful value, without altering the
/// remaining input or the failure behaviour.
pub fn map<P: Parser, F: Transform<P::Output>>(parser: P, map_fn: F) -> (r: MapParser<P, F>)
    ensures
        r == (MapParser { parser, map_fn }),
{
    MapParser { parser, map_fn }
}

/// The parser built by [`pair`]: runs the first parser, then the second on
/// whatever input the first left over, and produces both values as an ordered
/// tuple. The first parser always fully completes before the second runs.
pub struct PairParser<P1, P2> {
    /// The parser run first, on the whole input.
    pub first: P1,
    /// The parser run second, on what the first left over.
    pub second: P2,
}

impl<P1: Parser, P2: Parser> Parser for PairParser<P1, P2> {
    type Output = (P1::Output, P2::Output);

    /// Success: the first parser succeeds leaving some middle input, and the
    /// second succeeds on that middle input; the values are kept in order.
    open spec fn spec_ok(
        &self,
        input: Seq<char>,
        remaining: Seq<char>,
        value: (P1::Output, P2::Output),
    ) -> bool {
        exists|mid: Seq<char>|
            self.first.spec_ok(input, mid, value.0) && self.second.spec_ok(mid, remaining, value.1)
    }

    /// Failure: either the first parser fails on the whole input — its failure
    /// is handed on and the second parser never runs — or the first succeeds
    /// and the second fails on the input the first left it, handing back that
    /// input: failure is reported from where the second parser started, with
    /// no backtracking.
    open spec fn spec_fail(&self, input: Seq<char>, err: Seq<char>) -> bool {
        ||| self.first.spec_fail(input, err)
        ||| exists|mid: Seq<char>, v1: P1::Output|
            self.first.spec_ok(input, mid, v1) && self.second.spec_fail(mid, err)
    }

    fn parse<'a>(&self, input: &'a str) -> (r: ParseResult<'a, (P1::Output, P2::Output)>) {
        match self.first.parse(input) {
            Ok((next_input, result1)) => match self.second.parse(next_input) {
                Ok((last_input, result2)) => {
                    proof {
                        let v = (result1, result2);
                        assert(self.first.spec_ok(input@, next_input@, v.0)
                            && self.second.spec_ok(next_input@, last_input@, v.1));
                    }
                    Ok((last_input, (result1, result2)))
                },
                Err(err) => {
                    proof {
                        assert(self.first.spec_ok(input@, next_input@, result1)
                            && self.second.spec_fail(next_input@, err@));
                    }
                    Err(err)
                },
            },
            Err(err) => Err(err),
        }
    }

    proof fn lemma_ok_suffix(
        &self,
        input: Seq<char>,
        remaining: Seq<char>,
        value: (P1::Output, P2::Output),
    ) {
        let mid = choose|mid: Seq<char>|
            self.first.spec_ok(input, mid, value.0) && self.second.spec_ok(mid, remaining, value.1);
        self.first.lemma_ok_suffix(input, mid, value.0);
        self.second.lemma_ok_suffix(mid, remaining, value.1);
        lemma_suffix_transitive(remaining, mid, input);
    }

    proof fn lemma_fail_suffix(&self, input: Seq<char>, err: Seq<char>) {
        if self.first.spec_fail(input, err) {
            self.first.lemma_fail_suffix(input, err);
        } else {
            let (mid, v1) = choose|mid: Seq<char>, v1: P1::Output|
                self.first.spec_ok(input, mid, v1) && self.second.spec_fail(mid, err);
            self.first.lemma_ok_suffix(input, mid, v1);
            self.second.lemma_fail_suffix(mid, err);
            lemma_suffix_transitive(err, mid, input);
        }
    }
}

/// Sequence two parsers: run the first on the input and, if it succeeds, the
/// second on what the first left over; produce both values as an ordered
/// tuple. If either sub-parser fails, that failure is handed on unchanged and
/// nothing further runs.
pub fn pair<P1: Parser, P2: Parser>(parser1: P1, parser2: P2) -> (r: PairParser<P1, P2>)
    ensures
        r == (PairParser { first: parser1, second: parser2 }),
{
    PairParser { first: parser1, second: parser2 }
}

/// The transformation that keeps the first element of a pair's tuple.
pub struct KeepFirst;

impl<R1, R2> Transform<(R1, R2)> for KeepFirst {
    type Out = R1;

    open spec fn spec_apply(&self, a: (R1, R2)) -> R1 {
        a.0
    }

    fn apply(&self, a: (R1, R2)) -> (r: R1) {
        a.0
    }
}

/// The transformation that keeps the second element of a pair's tuple.
pub struct KeepSecond;

impl<R1, R2> Transform<(R1, R2)> for KeepSecond {
    type Out = R2;

    open spec fn spec_apply(&self, a: (R1, R2)) -> R2 {
        a.1
    }

    fn apply(&self, a: (R1, R2)) -> (r: R2) {
        a.1
    }
}

/// Sequence two parsers as [`pair`] does, but keep only the first parser's
/// value: for grammars where the second token is structurally required but its
/// value is uninteresting. Built purely out of `pair` and `map`.
pub fn left<P1: Parser, P2: Parser>(parser1: P1, parser2: P2) -> (r: MapParser<
    PairParser<P1, P2>,
    KeepFirst,
>)
    ensures
        r == (MapParser {
            parser: (PairParser { first: parser1, second: parser2 }),
            map_fn: KeepFirst,
        }),
{
    map(pair(parser1, parser2), KeepFirst)
}

/// Sequence two parsers as [`pair`] does, but keep only the second parser's
/// value. Built purely out of `pair` and `map`.
pub fn right<P1: Parser, P2: Parser>(parser1: P1, parser2: P2) -> (r: MapParser<
    PairParser<P1, P2>,
    KeepSecond,
>)
    ensures
        r == (MapParser {
            parser: (PairParser { first: parser1, second: parser2 }),
            map_fn: KeepSecond,
        }),
{
    map(pair(parser1, parser2), KeepSecond)
}

/// How `pair` fails, spelt out: with the first parser's own failure input when
/// the first fails, and with the second parser's own failure input — the input
/// the second was given — when the first succeeds and the second fails; and in
/// no other way.
pub proof fn lemma_pair_fail<P1: Parser, P2: Parser>(
    p: PairParser<P1, P2>,
    input: Seq<char>,
    err: Seq<char>,
)
    ensures
        p.spec_fail(input, err) <==> (p.first.spec_fail(input, err) || exists|
            mid: Seq<char>,
            v1: P1::Output,
        | p.first.spec_ok(input, mid, v1) && p.second.spec_fail(mid, err)),
{
}

/// `left` keeps exactly the first element of the tuple the equivalent `pair`
/// produces, with the same remaining input and the same failure behaviour.
pub proof fn lemma_left_matches_pair<P1: Parser, P2: Parser>(
    p: MapParser<PairParser<P1, P2>, KeepFirst>,
    input: Seq<char>,
    remaining: Seq<char>,
    value: P1::Output,
    err: Seq<char>,
)
    ensures
        p.spec_ok(input, remaining, value) <==> (exists|v2: P2::Output|
            p.parser.spec_ok(input, remaining, (value, v2))),
        p.spec_fail(input, err) <==> p.parser.spec_fail(input, err),
{
    if p.spec_ok(input, remaining, value) {
        let a = choose|a: (P1::Output, P2::Output)|
            p.parser.spec_ok(input, remaining, a) && value == p.map_fn.spec_apply(a);
        assert(p.parser.spec_ok(input, remaining, (value, a.1)));
    }
    if exists|v2: P2::Output| p.parser.spec_ok(input, remaining, (value, v2)) {
        let v2 = choose|v2: P2::Output| p.parser.spec_ok(input, remaining, (value, v2));
        let a = (value, v2);
        assert(p.parser.spec_ok(input, remaining, a) && value == p.map_fn.spec_apply(a));
    }
}

/// `right` keeps exactly the second element of the tuple the equivalent `pair`
/// produces, with the same remaining input and the same failure behaviour.
pub proof fn lemma_right_matches_pair<P1: Parser, P2: Parser>(
    p: MapParser<PairParser<P1, P2>, KeepSecond>,
    input: Seq<char>,
    remaining: Seq<char>,
    value: P2::Output,
    err: Seq<char>,
)
    ensures
        p.spec_ok(input, remaining, value) <==> (exists|v1: P1::Output|
            p.parser.spec_ok(input, remaining, (v1, value))),
        p.spec_fail(input, err) <==> p.parser.spec_fail(input, err),
{
    if p.spec_ok(input, remaining, value) {
        let a = choose|a: (P1::Output, P2::Output)|
            p.parser.spec_ok(input, remaining, a) && value == p.map_fn.spec_apply(a);
        assert(p.parser.spec_ok(input, remaining, (a.0, value)));
    }
    if exists|v1: P1::Output| p.parser.spec_ok(input, remaining, (v1, value)) {
        let v1 = choose|v1: P1::Output| p.parser.spec_ok(input, remaining, (v1, value));
        let a = (v1, value);
        assert(p.parser.spec_ok(input, remaining, a) && value == p.map_fn.spec_apply(a));
    }
}

} // verus!
