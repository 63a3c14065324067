//! The uniform parsing contract: what it means to be "a parser of `Output`".
//!
//! A parser takes an input view (`&str`, codepoint-exact) and returns either a
//! successful pair of remaining input and produced value, or a failure carrying
//! the unconsumed input the failing parser was given. Every parser is a pure
//! function of its input: the two spec relations below pin down exactly which
//! outcomes `parse` may return.

use vstd::prelude::*;

verus! {

/// The outcome of one parser invocation: on success, the remaining input and
/// the produced value; on failure, the input the failing parser was given.
pub type ParseResult<'a, Output> = Result<(&'a str, Output), &'a str>;

/// `suffix` is what is left of `full` after removing zero or more leading characters.
pub open spec fn is_suffix_of(suffix: Seq<char>, full: Seq<char>) -> bool {
    exists|prefix: Seq<char>| full == prefix + suffix
}

pub proof fn lemma_suffix_transitive(a: Seq<char>, b: Seq<char>, c: Seq<char>)
    requires
        is_suffix_of(a, b),
        is_suffix_of(b, c),
    ensures
        is_suffix_of(a, c),
{
    let p1 = choose|p: Seq<char>| b == p + a;
    let p2 = choose|p: Seq<char>| c == p + b;
    assert(c =~= (p2 + p1) + a);
}

/// The parser contract. `spec_ok(input, remaining, value)` says that on `input`
/// the parser may succeed leaving `remaining` and producing `value`;
/// `spec_fail(input, err)` says that on `input` it may fail handing back `err`.
/// For every parser in this crate the two relations are mutually exclusive and
/// together cover every input, so the contract of `parse` determines the
/// outcome completely.
pub trait Parser {
    /// The type of value a successful parse produces.
    type Output;

    /// When does parsing `input` succeed with `remaining` input and `value`?
    spec fn spec_ok(&self, input: Seq<char>, remaining: Seq<char>, value: Self::Output) -> bool;

    /// When does parsing `input` fail handing back `err`?
    spec fn spec_fail(&self, input: Seq<char>, err: Seq<char>) -> bool;

    /// Run the parser on `input`.
    fn parse<'a>(&self, input: &'a str) -> (r: ParseResult<'a, Self::Output>)
        ensures
            match r {
                Ok((remaining, value)) => self.spec_ok(input@, remaining@, value),
                Err(err) => self.spec_fail(input@, err@),
            },
    ;

    /// The remaining input of a successful parse is always a suffix of the
    /// input passed in: parsers only ever re-slice their input, never rewrite it.
    proof fn lemma_ok_suffix(&self, input: Seq<char>, remaining: Seq<char>, value: Self::Output)
        requires
            self.spec_ok(input, remaining, value),
        ensures
            is_suffix_of(remaining, input),
    ;

    /// The input handed back by a failing parse is likewise a suffix of the
    /// input passed in: it is the whole input of whichever sub-parser failed.
    proof fn lemma_fail_suffix(&self, input: Seq<char>, err: Seq<char>)
        requires
            self.spec_fail(input, err),
        ensures
            is_suffix_of(err, input),
    ;
}

/// A pure, total transformation, used by the `map` combinator to turn a parser
/// of one value type into a parser of another. `apply` must return exactly
/// `spec_apply` of its argument, so a mapped parser's outcome stays a function
/// of its input.
pub trait Transform<In> {
    /// The type the transformation produces.
    type Out;

    /// What the transformation returns, as a mathematical function.
    spec fn spec_apply(&self, a: In) -> Self::Out;

    /// Apply the transformation.
    fn apply(&self, a: In) -> (r: Self::Out)
        ensures
            r == self.spec_apply(a),
    ;
}

} // verus!
