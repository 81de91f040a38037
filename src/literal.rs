//! Matching a literal at the start of a string slice.
//!
//! The comparison is made on the UTF-8 bytes; the lemmas below carry the
//! result over to the character view of the strings.
use vstd::prelude::*;
use vstd::string::StringSliceAdditionalSpecFns;
use vstd::utf8::*;

verus! {

/// `s` begins with the characters of `p`.
pub open spec fn starts_with(s: Seq<char>, p: Seq<char>) -> bool {
    p.len() <= s.len() && s.subrange(0, p.len() as int) == p
}

/// Encoding a concatenation encodes each part in turn.
proof fn lemma_encode_concat(a: Seq<char>, b: Seq<char>)
    ensures
        encode_utf8(a + b) == encode_utf8(a) + encode_utf8(b),
    decreases a.len(),
{
    if a.len() == 0 {
        assert(a + b =~= b);
        assert(encode_utf8(a) + encode_utf8(b) =~= encode_utf8(b));
    } else {
        assert((a + b).drop_first() =~= a.drop_first() + b);
        lemma_encode_concat(a.drop_first(), b);
        assert(encode_utf8(a + b) =~= encode_utf8(a) + encode_utf8(b));
    }
}

/// The end of an encoded prefix is a character boundary of the whole encoding.
proof fn lemma_boundary_after(a: Seq<char>, b: Seq<char>)
    ensures
        is_char_boundary(encode_utf8(a + b), encode_utf8(a).len() as int),
    decreases a.len(),
{
    let bytes = encode_utf8(a + b);
    encode_utf8_valid_utf8(a + b);
    if a.len() > 0 {
        let rest = (a + b).drop_first();
        assert(rest =~= a.drop_first() + b);
        encode_utf8_first_scalar(a + b);
        lemma_encode_concat(a, b);
        assert(pop_first_scalar(bytes) =~= encode_utf8(rest));
        lemma_boundary_after(a.drop_first(), b);
    }
}

/// A character prefix shows in the bytes, and ends on a character boundary.
proof fn lemma_prefix_bytes(s: Seq<char>, p: Seq<char>)
    requires
        starts_with(s, p),
    ensures
        encode_utf8(s) == encode_utf8(p) + encode_utf8(s.skip(p.len() as int)),
        is_char_boundary(encode_utf8(s), encode_utf8(p).len() as int),
{
    let rest = s.skip(p.len() as int);
    assert(s =~= p + rest);
    lemma_encode_concat(p, rest);
    lemma_boundary_after(p, rest);
}

/// Splits `literal` off the start of `input`: `Some((head, tail))` where
/// `head` is the matched part of `input` and `tail` what follows it, or
/// `None` where `input` does not begin with `literal`.
pub fn split_literal<'a>(input: &'a str, literal: &str) -> (r: Option<(&'a str, &'a str)>)
    ensures
        r is Some <==> starts_with(input@, literal@),
        r matches Some((head, tail)) ==> head@ == literal@ && tail@ == input@.skip(
            literal@.len() as int,
        ),
{
    broadcast use encode_utf8_decode_utf8, encode_utf8_valid_utf8;

    let ib = input.as_bytes();
    let lb = literal.as_bytes();
    let n = lb.len();
    if ib.len() < n {
        proof {
            if starts_with(input@, literal@) {
                lemma_prefix_bytes(input@, literal@);
            }
        }
        return None;
    }
    let mut i: usize = 0;
    while i < n
        invariant
            ib@ == input.spec_bytes(),
            lb@ == literal.spec_bytes(),
            n == lb@.len(),
            n <= ib@.len(),
            i <= n,
            forall|j: int| 0 <= j < i ==> ib@[j] == lb@[j],
        decreases n - i,
    {
        if ib[i] != lb[i] {
            proof {
                if starts_with(input@, literal@) {
                    lemma_prefix_bytes(input@, literal@);
                    let rest = encode_utf8(input@.skip(literal@.len() as int));
                    assert(ib@ == lb@ + rest);
                    assert((lb@ + rest)[i as int] == lb@[i as int]);
                }
            }
            return None;
        }
        i += 1;
    }
    // A byte prefix that ends inside a character is no match.
    if !input.is_char_boundary(n) {
        proof {
            if starts_with(input@, literal@) {
                lemma_prefix_bytes(input@, literal@);
            }
        }
        return None;
    }
    let (head, tail) = input.split_at(n);
    proof {
        let bytes = input.spec_bytes();
        assert(bytes.subrange(0, n as int) =~= lb@);
        decode_utf8_split(bytes, n as int);
        assert(head@ == literal@);
        assert(input@ == literal@ + tail@);
        assert(input@.subrange(0, literal@.len() as int) =~= literal@);
        assert(input@.skip(literal@.len() as int) =~= tail@);
    }
    Some((head, tail))
}

} // verus!
