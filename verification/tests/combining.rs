use parser_combinators::Identifier;
use parser_combinators::KeepFirst;
use parser_combinators::KeepSecond;
use parser_combinators::Parser;
use parser_combinators::left;
use parser_combinators::match_literal;
use parser_combinators::pair;
use parser_combinators::right;

#[test]
fn map_transforms_the_value_only() {
    let keep_name = parser_combinators::combine::map(pair(match_literal("<"), Identifier), KeepSecond);
    assert_eq!(
        Ok(("/>", "my-first-element".to_string())),
        keep_name.parse("<my-first-element/>")
    );
    assert_eq!(Err("oops"), keep_name.parse("oops"));
}

#[test]
fn left_keeps_first_value() {
    let tag_name = left(Identifier, match_literal("/>"));
    assert_eq!(Ok(("", "my-element".to_string())), tag_name.parse("my-element/>"));
    let opener = left(match_literal("<"), Identifier);
    assert_eq!(Ok(("/>", ())), opener.parse("<my-first-element/>"));
}

#[test]
fn right_keeps_second_value() {
    let tag_name = right(match_literal("<"), Identifier);
    assert_eq!(
        Ok(("/>", "my-first-element".to_string())),
        tag_name.parse("<my-first-element/>")
    );
}

#[test]
fn left_and_right_match_pair_outcomes() {
    let inputs = ["<my-first-element/>", "oops", "<!oops", "<x"];
    for input in inputs {
        let by_pair = pair(match_literal("<"), Identifier).parse(input);
        let by_left = left(match_literal("<"), Identifier).parse(input);
        let by_right = right(match_literal("<"), Identifier).parse(input);
        match by_pair {
            Ok((remaining, (first, second))) => {
                assert_eq!(Ok((remaining, first)), by_left);
                assert_eq!(Ok((remaining, second)), by_right);
            }
            Err(err) => {
                assert_eq!(Err(err), by_left);
                assert_eq!(Err(err), by_right);
            }
        }
    }
}

#[test]
fn pair_reports_second_failure_from_where_it_started() {
    let tag_opener = pair(match_literal("<"), Identifier);
    assert_eq!(Err("!oops"), tag_opener.parse("<!oops"));
    assert_eq!(Err("1oops"), tag_opener.parse("<1oops"));
}

#[test]
fn pair_threads_remaining_input() {
    let two_names = pair(left(Identifier, match_literal(" ")), Identifier);
    assert_eq!(
        Ok(("!", ("hello".to_string(), "world".to_string()))),
        two_names.parse("hello world!")
    );
}

#[test]
fn keep_first_of_nested_pair() {
    let element = parser_combinators::combine::map(
        pair(pair(match_literal("<"), Identifier), match_literal("/>")),
        KeepFirst,
    );
    assert_eq!(
        Ok(("", ((), "my-first-element".to_string()))),
        element.parse("<my-first-element/>")
    );
}
