use combinators::keywords::{parse_bool, parse_hello};
use combinators::parser::{parse_comma_tags, parse_separated, parse_tag, Parser};

#[test]
fn test_parse_hello() {
    assert_eq!(parse_hello("Hello, World").unwrap(), (", World", "Hello"));
}

#[test]
fn test_parse_tag() {
    assert_eq!(
        parse_tag("Hello").parse("Hello, World").unwrap(),
        (", World", "Hello")
    );
}

#[test]
fn test_parse_comma_tag() {
    assert_eq!(
        parse_comma_tags("Hello", "World")
            .parse("Hello, World!!")
            .unwrap(),
        ("!!", ("Hello", "World"))
    )
}

#[test]
fn test_parse_separated() {
    let parse_hello_world =
        parse_separated(parse_tag("Hello"), parse_tag(", "), parse_tag("World"));

    assert_eq!(
        parse_hello_world.parse("Hello, World!!").unwrap(),
        ("!!", ("Hello", "World"))
    )
}

#[test]
fn test_parse_bool() {
    assert_eq!(parse_bool("true, 1234").unwrap(), (", 1234", true));
    assert_eq!(parse_bool("false bla").unwrap(), (" bla", false));
    assert!(parse_bool("afasdlse").is_err());
}
