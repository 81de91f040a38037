//! Parsers for fixed words: a greeting, and the two boolean literals.
use vstd::prelude::*;
use crate::literal::{split_literal, starts_with};
use crate::parser::{literal_outcome, parse_tag, result_view, Parser};

verus! {

/// The characters of `Hello`.
pub open spec fn hello_word() -> Seq<char> {
    seq!['H', 'e', 'l', 'l', 'o']
}

/// The characters of `true`.
pub open spec fn true_word() -> Seq<char> {
    seq!['t', 'r', 'u', 'e']
}

/// The characters of `false`.
pub open spec fn false_word() -> Seq<char> {
    seq!['f', 'a', 'l', 's', 'e']
}

/// Matches `Hello` at the start of `input`.
pub fn parse_hello(input: &str) -> (r: Result<(&str, &str), nom::Err<()>>)
    ensures
        result_view(r) == literal_outcome(input@, hello_word()),
{
    let hello = "Hello";
    proof {
        reveal_strlit("Hello");
        assert(hello@ =~= hello_word());
    }
    match split_literal(input, hello) {
        Some((_, tail)) => Ok((tail, hello)),
        None => Err(nom::Err::Error(())),
    }
}

/// The outcome of reading a boolean literal: `true` is tried first, then
/// `false` on the same input; where neither matches, the error of the second
/// attempt.
pub open spec fn bool_outcome(input: Seq<char>) -> Result<(Seq<char>, bool), nom::Err<()>> {
    if starts_with(input, true_word()) {
        Ok((input.skip(4), true))
    } else if starts_with(input, false_word()) {
        Ok((input.skip(5), false))
    } else {
        Err(nom::Err::Error(()))
    }
}

/// Reads `true` or `false` at the start of `input`.
pub fn parse_bool(input: &str) -> (r: Result<(&str, bool), nom::Err<()>>)
    ensures
        result_view(r) == bool_outcome(input@),
{
    let yes = "true";
    let no = "false";
    proof {
        reveal_strlit("true");
        reveal_strlit("false");
        assert(yes@ =~= true_word());
        assert(no@ =~= false_word());
    }
    match parse_tag(yes).parse(input) {
        Ok((tail, _)) => Ok((tail, true)),
        Err(nom::Err::Error(_)) => match parse_tag(no).parse(input) {
            Ok((tail, _)) => Ok((tail, false)),
            Err(e) => Err(e),
        },
        Err(e) => Err(e),
    }
}

} // verus!

verus! {

/// An input that begins with `true` reads as `true`, whatever follows it,
/// and what follows it is what remains.
pub proof fn bool_reads_true(rest: Seq<char>)
    ensures
        bool_outcome(true_word() + rest) == Ok::<_, nom::Err<()>>((rest, true)),
{
    let input = true_word() + rest;
    assert(input.subrange(0, 4) =~= true_word());
    assert(input.skip(4) =~= rest);
}

/// An input that begins with `false` reads as `false`, whatever follows it,
/// and what follows it is what remains.
pub proof fn bool_reads_false(rest: Seq<char>)
    ensures
        bool_outcome(false_word() + rest) == Ok::<_, nom::Err<()>>((rest, false)),
{
    let input = false_word() + rest;
    assert(input[0] == 'f');
    assert(!starts_with(input, true_word())) by {
        if starts_with(input, true_word()) {
            assert(input.subrange(0, 4)[0] == 't');
        }
    }
    assert(input.subrange(0, 5) =~= false_word());
    assert(input.skip(5) =~= rest);
}

/// An input that begins with neither `true` nor `false` is refused.
pub proof fn bool_rejects_other(input: Seq<char>)
    requires
        !starts_with(input, true_word()),
        !starts_with(input, false_word()),
    ensures
        bool_outcome(input) == Err::<(Seq<char>, bool), _>(nom::Err::Error(())),
{
}

} // verus!
