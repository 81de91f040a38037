use combinators::keywords::{parse_bool, parse_hello};
use combinators::literal::split_literal;
use combinators::parser::{parse_comma_tags, parse_separated, parse_tag, Parser};

#[test]
fn tag_value_is_a_view_into_the_input() {
    let input = String::from("Hello, World");
    let (rest, value) = parse_tag("Hello").parse(input.as_str()).unwrap();
    assert_eq!(value, "Hello");
    assert_eq!(rest, ", World");
    assert_eq!(value.as_ptr(), input.as_ptr());
}

#[test]
fn tag_whole_input_leaves_nothing() {
    assert_eq!(parse_tag("abc").parse("abc").unwrap(), ("", "abc"));
}

#[test]
fn tag_empty_literal_consumes_nothing() {
    assert_eq!(parse_tag("").parse("xyz").unwrap(), ("xyz", ""));
    assert_eq!(parse_tag("").parse("").unwrap(), ("", ""));
}

#[test]
fn tag_fails_on_short_input() {
    assert_eq!(parse_tag("Hello").parse("Hell"), Err(nom::Err::Error(())));
    assert_eq!(parse_tag("a").parse(""), Err(nom::Err::Error(())));
}

#[test]
fn tag_is_case_sensitive() {
    assert_eq!(parse_tag("Hello").parse("hello"), Err(nom::Err::Error(())));
}

#[test]
fn tag_fails_on_late_mismatch() {
    assert_eq!(parse_tag("Hello").parse("Help me"), Err(nom::Err::Error(())));
}

#[test]
fn tag_runs_again_with_same_outcome() {
    let p = parse_tag("ab");
    assert_eq!(p.parse("abc").unwrap(), ("c", "ab"));
    assert_eq!(p.parse("abc").unwrap(), ("c", "ab"));
    assert!(p.parse("xbc").is_err());
    assert_eq!(p.parse("abab").unwrap(), ("ab", "ab"));
}

#[test]
fn tag_matches_multibyte_characters() {
    assert_eq!(parse_tag("héllo").parse("héllo wörld").unwrap(), (" wörld", "héllo"));
    assert_eq!(parse_tag("é").parse("e\u{301}"), Err(nom::Err::Error(())));
    assert_eq!(parse_tag("日本").parse("日本語").unwrap(), ("語", "日本"));
}

#[test]
fn split_literal_gives_head_and_tail() {
    assert_eq!(split_literal("key=value", "key="), Some(("key=", "value")));
    assert_eq!(split_literal("key=value", "value"), None);
}

#[test]
fn hello_fails_elsewhere() {
    assert_eq!(parse_hello("Goodbye"), Err(nom::Err::Error(())));
    assert_eq!(parse_hello("Hello").unwrap(), ("", "Hello"));
}

#[test]
fn separated_fails_at_first_parser() {
    let p = parse_separated(parse_tag("Hello"), parse_tag(", "), parse_tag("World"));
    assert_eq!(p.parse("Goodbye, World"), Err(nom::Err::Error(())));
}

#[test]
fn separated_fails_at_separator() {
    let p = parse_separated(parse_tag("Hello"), parse_tag(", "), parse_tag("World"));
    assert_eq!(p.parse("Hello World"), Err(nom::Err::Error(())));
}

#[test]
fn separated_fails_at_second_parser() {
    let p = parse_separated(parse_tag("Hello"), parse_tag(", "), parse_tag("World"));
    assert_eq!(p.parse("Hello, Moon"), Err(nom::Err::Error(())));
}

#[test]
fn separated_nests() {
    let inner = parse_separated(parse_tag("a"), parse_tag("-"), parse_tag("b"));
    let outer = parse_separated(inner, parse_tag(";"), parse_tag("c"));
    assert_eq!(outer.parse("a-b;c!").unwrap(), ("!", (("a", "b"), "c")));
}

#[test]
fn comma_tags_need_the_comma_and_space() {
    let p = parse_comma_tags("x", "y");
    assert_eq!(p.parse("x, y").unwrap(), ("", ("x", "y")));
    assert!(p.parse("x,y").is_err());
    assert!(p.parse("x; y").is_err());
}

#[test]
fn bool_any_rest() {
    assert_eq!(parse_bool("true").unwrap(), ("", true));
    assert_eq!(parse_bool("truest").unwrap(), ("st", true));
    assert_eq!(parse_bool("false").unwrap(), ("", false));
    assert_eq!(parse_bool("falsehood").unwrap(), ("hood", false));
}

#[test]
fn bool_rejects_partial_words() {
    assert_eq!(parse_bool("tru"), Err(nom::Err::Error(())));
    assert_eq!(parse_bool("fals"), Err(nom::Err::Error(())));
    assert_eq!(parse_bool(""), Err(nom::Err::Error(())));
    assert_eq!(parse_bool("True"), Err(nom::Err::Error(())));
    assert_eq!(parse_bool(" true"), Err(nom::Err::Error(())));
}
