use parser_combinators::Identifier;
use parser_combinators::Parser;
use parser_combinators::identifier;
use parser_combinators::match_literal;
use parser_combinators::pair;

#[test]
fn literal_parser() {
    let parse_joe = match_literal("Hello Joe!");
    assert_eq!(Ok(("", ())), parse_joe.parse("Hello Joe!"));
    assert_eq!(
        Ok((" Hello Robert!", ())),
        parse_joe.parse("Hello Joe! Hello Robert!")
    );
    assert_eq!(Err("Hello Mike!"), parse_joe.parse("Hello Mike!"));
}

#[test]
fn identifier_parser() {
    assert_eq!(
        Ok(("", "identifier-with-dash".to_string())),
        identifier("identifier-with-dash")
    );
    assert_eq!(
        Ok((" entirely an identifier", "not".to_string())),
        identifier("not entirely an identifier")
    );
    assert_eq!(Err("!not-and-identifier"), identifier("!not-and-identifier"));
}

#[test]
fn pair_combinator() {
    let tag_opener = pair(match_literal("<"), Identifier);
    assert_eq!(
        Ok(("/>", ((), "my-first-element".to_string()))),
        tag_opener.parse("<my-first-element/>")
    );
    assert_eq!(Err("oops"), tag_opener.parse("oops"));
    assert_eq!(Err("!oops"), tag_opener.parse("<!oops"));
}

#[test]
fn letter_a_parser() {
    assert_eq!(Ok(("", ())), parser_combinators::the_letter_a("a"));
    assert_eq!(Ok(("bc", ())), parser_combinators::the_letter_a("abc"));
    assert_eq!(Err("b"), parser_combinators::the_letter_a("b"));
    assert_eq!(Err(""), parser_combinators::the_letter_a(""));
}

#[test]
fn empty_literal_always_succeeds() {
    let parse_nothing = match_literal("");
    assert_eq!(Ok(("", ())), parse_nothing.parse(""));
    assert_eq!(Ok(("abc", ())), parse_nothing.parse("abc"));
}

#[test]
fn literal_fails_on_short_input() {
    let parse_joe = match_literal("Hello Joe!");
    assert_eq!(Err("Hello"), parse_joe.parse("Hello"));
    assert_eq!(Err(""), parse_joe.parse(""));
}

#[test]
fn literal_is_codepoint_exact() {
    let parse_greeting = match_literal("héllo");
    assert_eq!(Ok(("!", ())), parse_greeting.parse("héllo!"));
    assert_eq!(Err("hallo!"), parse_greeting.parse("hallo!"));
}

#[test]
fn identifier_rejects_non_alphabetic_start() {
    assert_eq!(Err(""), identifier(""));
    assert_eq!(Err("1abc"), identifier("1abc"));
    assert_eq!(Err(" abc"), identifier(" abc"));
    assert_eq!(Err("-abc"), identifier("-abc"));
}

#[test]
fn identifier_stops_at_non_matching_character() {
    assert_eq!(Ok(("1", "abc".to_string())), identifier("abc1"));
    assert_eq!(Ok((" rest", "a".to_string())), identifier("a rest"));
    assert_eq!(Ok(("", "héllo".to_string())), identifier("héllo"));
}

#[test]
fn identifier_round_trip_concatenation() {
    for input in ["identifier-with-dash", "not entirely an identifier", "a-b c", "x"] {
        let (remaining, value) = identifier(input).expect("alphabetic start must parse");
        let mut rebuilt = value.clone();
        rebuilt.push_str(remaining);
        assert_eq!(input, rebuilt);
    }
}
