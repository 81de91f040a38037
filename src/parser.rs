//! The parser abstraction and the combinators built on it.
//!
//! A parser's behaviour is a spec function, `outcome`, from the view of an
//! input to the views of what `parse` returns. Parsers are read through
//! `&self` only, so a parser can be run again on any input and gives the same
//! outcome.
use vstd::prelude::*;
use core::marker::PhantomData;
use crate::literal::{split_literal, starts_with};

verus! {

/// The view of a parse result: the remaining input and the value by their
/// views, the error by the view of its payload.
pub open spec fn result_view<I: View, O: View, E: View>(
    r: Result<(I, O), nom::Err<E>>,
) -> Result<(I::V, O::V), nom::Err<E::V>> {
    match r {
        Ok((rest, value)) => Ok((rest@, value@)),
        Err(nom::Err::Incomplete(needed)) => Err(nom::Err::Incomplete(needed)),
        Err(nom::Err::Error(e)) => Err(nom::Err::Error(e@)),
        Err(nom::Err::Failure(e)) => Err(nom::Err::Failure(e@)),
    }
}

/// Something that, given an input, yields the remaining input and a parsed
/// value, or fails.
pub trait Parser<I: View, O: View, E: View>: Sized {
    /// What parsing `input` gives, over views.
    spec fn outcome(&self, input: I::V) -> Result<(I::V, O::V), nom::Err<E::V>>;

    /// Runs the parser on `input`.
    fn parse(&self, input: I) -> (r: Result<(I, O), nom::Err<E>>)
        ensures
            result_view(r) == self.outcome(input@),
    ;
}

/// The outcome of matching `literal` at the start of `input`: the rest of the
/// input and the literal itself, or an error with no payload.
pub open spec fn literal_outcome(input: Seq<char>, literal: Seq<char>) -> Result<
    (Seq<char>, Seq<char>),
    nom::Err<()>,
> {
    if starts_with(input, literal) {
        Ok((input.skip(literal.len() as int), literal))
    } else {
        Err(nom::Err::Error(()))
    }
}

/// Matches a fixed literal at the start of the input.
pub struct Tag<'t> {
    pub literal: &'t str,
}

impl<'i, 't> Parser<&'i str, &'i str, ()> for Tag<'t> {
    open spec fn outcome(&self, input: Seq<char>) -> Result<(Seq<char>, Seq<char>), nom::Err<()>> {
        literal_outcome(input, self.literal@)
    }

    fn parse(&self, input: &'i str) -> (r: Result<(&'i str, &'i str), nom::Err<()>>) {
        match split_literal(input, self.literal) {
            Some((head, tail)) => Ok((tail, head)),
            None => Err(nom::Err::Error(())),
        }
    }
}

/// A parser that matches `tag` at the start of its input; its value is the
/// matched part of the input.
pub fn parse_tag<'t>(tag: &'t str) -> (r: Tag<'t>)
    ensures
        r.literal == tag,
{
    Tag { literal: tag }
}

/// Runs `first`, then `separator` on what `first` left, then `second` on
/// what `separator` left; the value is the pair of the outer two values.
pub struct Separated<P1, PS, P2, S> {
    pub first: P1,
    pub separator: PS,
    pub second: P2,
    pub separator_output: PhantomData<S>,
}

/// The outcome of running three parsers in turn, stopping at the first
/// failure, over the outcomes of each.
pub open spec fn separated_outcome<I, O1, S, O2, E>(
    p1: spec_fn(I) -> Result<(I, O1), nom::Err<E>>,
    sep: spec_fn(I) -> Result<(I, S), nom::Err<E>>,
    p2: spec_fn(I) -> Result<(I, O2), nom::Err<E>>,
    input: I,
) -> Result<(I, (O1, O2)), nom::Err<E>> {
    match p1(input) {
        Err(e) => Err(e),
        Ok((rest1, value1)) => match sep(rest1) {
            Err(e) => Err(e),
            Ok((rest2, _)) => match p2(rest2) {
                Err(e) => Err(e),
                Ok((rest3, value2)) => Ok((rest3, (value1, value2))),
            },
        },
    }
}

impl<I: View, O1: View, S: View, O2: View, E: View, P1, PS, P2> Parser<I, (O1, O2), E> for Separated<
    P1,
    PS,
    P2,
    S,
> where P1: Parser<I, O1, E>, PS: Parser<I, S, E>, P2: Parser<I, O2, E> {
    open spec fn outcome(&self, input: I::V) -> Result<(I::V, (O1::V, O2::V)), nom::Err<E::V>> {
        separated_outcome(
            |i: I::V| self.first.outcome(i),
            |i: I::V| self.separator.outcome(i),
            |i: I::V| self.second.outcome(i),
            input,
        )
    }

    fn parse(&self, input: I) -> (r: Result<(I, (O1, O2)), nom::Err<E>>) {
        let (tail, value1) = match self.first.parse(input) {
            Ok(x) => x,
            Err(e) => return Err(e),
        };
        let (tail, _) = match self.separator.parse(tail) {
            Ok(x) => x,
            Err(e) => return Err(e),
        };
        let (tail, value2) = match self.second.parse(tail) {
            Ok(x) => x,
            Err(e) => return Err(e),
        };
        Ok((tail, (value1, value2)))
    }
}

/// A parser that runs `first`, `separator` and `second` in turn.
pub fn parse_separated<P1, PS, P2, S>(first: P1, separator: PS, second: P2) -> (r: Separated<
    P1,
    PS,
    P2,
    S,
>)
    ensures
        r.first == first,
        r.separator == separator,
        r.second == second,
{
    Separated { first, separator, second, separator_output: PhantomData }
}

} // verus!

verus! {

/// A parser for `tag1`, then `", "`, then `tag2`; its value is the pair of
/// the two matched parts.
pub fn parse_comma_tags<'i, 't>(tag1: &'t str, tag2: &'t str) -> (r: Separated<
    Tag<'t>,
    Tag<'static>,
    Tag<'t>,
    &'i str,
>)
    ensures
        r.first.literal@ == tag1@,
        r.separator.literal@ == seq![',', ' '],
        r.second.literal@ == tag2@,
{
    let comma = ", ";
    proof {
        reveal_strlit(", ");
        assert(comma@ =~= seq![',', ' ']);
    }
    parse_separated(parse_tag(tag1), parse_tag(comma), parse_tag(tag2))
}

} // verus!

verus! {

/// A tag run on an input that begins with its literal succeeds: the value is
/// the literal, and what remains is the input with the literal's characters
/// taken off the front.
pub proof fn tag_succeeds_on_prefix(tag: Tag<'_>, input: Seq<char>)
    requires
        starts_with(input, tag.literal@),
    ensures
        <Tag<'_> as Parser<&str, &str, ()>>::outcome(&tag, input) == Ok::<_, nom::Err<()>>(
            (input.skip(tag.literal@.len() as int), tag.literal@),
        ),
{
}

/// A tag run on an input that does not begin with its literal fails with an
/// error that carries nothing, and consumes nothing.
pub proof fn tag_fails_elsewhere(tag: Tag<'_>, input: Seq<char>)
    requires
        !starts_with(input, tag.literal@),
    ensures
        <Tag<'_> as Parser<&str, &str, ()>>::outcome(&tag, input) == Err::<
            (Seq<char>, Seq<char>),
            _,
        >(nom::Err::Error(())),
{
}

/// Three parsers in sequence succeed exactly when the first succeeds on the
/// input, the separator on what the first left, and the second on what the
/// separator left; the value is then the pair of the first's and the
/// second's values, and what remains is what the second left.
pub proof fn separated_succeeds_iff<I: View, O1: View, S: View, O2: View, E: View, P1, PS, P2>(
    p: &Separated<P1, PS, P2, S>,
    input: I::V,
) where P1: Parser<I, O1, E>, PS: Parser<I, S, E>, P2: Parser<I, O2, E>
    ensures
        ({
            let whole = <Separated<P1, PS, P2, S> as Parser<I, (O1, O2), E>>::outcome(p, input);
            let a = p.first.outcome(input);
            let b = p.separator.outcome((a->Ok_0).0);
            let c = p.second.outcome((b->Ok_0).0);
            &&& whole is Ok <==> (a is Ok && b is Ok && c is Ok)
            &&& whole is Ok ==> whole->Ok_0 == ((c->Ok_0).0, ((a->Ok_0).1, (c->Ok_0).1))
        }),
{
}

/// Three parsers in sequence fail with the error of the first of them to
/// fail, unchanged.
pub proof fn separated_fails_at_first_failure<
    I: View,
    O1: View,
    S: View,
    O2: View,
    E: View,
    P1,
    PS,
    P2,
>(p: &Separated<P1, PS, P2, S>, input: I::V) where
    P1: Parser<I, O1, E>,
    PS: Parser<I, S, E>,
    P2: Parser<I, O2, E>,

    ensures
        ({
            let whole = <Separated<P1, PS, P2, S> as Parser<I, (O1, O2), E>>::outcome(p, input);
            let a = p.first.outcome(input);
            let b = p.separator.outcome((a->Ok_0).0);
            let c = p.second.outcome((b->Ok_0).0);
            &&& a is Err ==> whole is Err && whole->Err_0 == a->Err_0
            &&& a is Ok && b is Err ==> whole is Err && whole->Err_0 == b->Err_0
            &&& a is Ok && b is Ok && c is Err ==> whole is Err && whole->Err_0 == c->Err_0
        }),
{
}

/// The parsers after the first one to fail play no part: two sequences
/// that agree up to the failing parser have the same outcome.
pub proof fn separated_ignores_after_failure<
    I: View,
    O1: View,
    S: View,
    O2: View,
    E: View,
    P1,
    PS,
    P2,
>(p: &Separated<P1, PS, P2, S>, q: &Separated<P1, PS, P2, S>, input: I::V) where
    P1: Parser<I, O1, E>,
    PS: Parser<I, S, E>,
    P2: Parser<I, O2, E>,

    requires
        p.first == q.first,
    ensures
        p.first.outcome(input) is Err ==> <Separated<P1, PS, P2, S> as Parser<
            I,
            (O1, O2),
            E,
        >>::outcome(p, input) == <Separated<P1, PS, P2, S> as Parser<I, (O1, O2), E>>::outcome(
            q,
            input,
        ),
        p.first.outcome(input) is Ok && p.separator == q.separator && p.separator.outcome(
            (p.first.outcome(input)->Ok_0).0,
        ) is Err ==> <Separated<P1, PS, P2, S> as Parser<I, (O1, O2), E>>::outcome(p, input)
            == <Separated<P1, PS, P2, S> as Parser<I, (O1, O2), E>>::outcome(q, input),
{
}

} // verus!
