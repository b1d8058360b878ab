//! Borrowed-or-owned text, compared byte by byte.
//!
//! A text is modelled by its sequence of characters. Its order is the lexicographic order of
//! its UTF-8 encoding, which is how string slices compare.

use crate::order::{
    int_order, lemma_lex_order_equal, lemma_lex_order_reversed, lemma_lex_order_skip,
    lemma_lex_order_transitive, lex_order, Order,
};
use std::borrow::Cow;
use vstd::prelude::*;
use vstd::utf8::*;

verus! {

/// The order of two bytes by their numeric value.
pub open spec fn byte_order() -> spec_fn(u8, u8) -> Order {
    |x: u8, y: u8| int_order(x as int, y as int)
}

/// Lexicographic order of two byte strings.
pub open spec fn bytes_order(a: Seq<u8>, b: Seq<u8>) -> Order {
    lex_order(a, b, byte_order())
}

/// Byte-wise order of two texts: the lexicographic order of their UTF-8 encodings.
pub open spec fn text_order(a: Seq<char>, b: Seq<char>) -> Order {
    bytes_order(encode_utf8(a), encode_utf8(b))
}

/// Two texts are `Equal` in byte-wise order exactly when they hold the same characters.
pub proof fn lemma_text_order_equal(a: Seq<char>, b: Seq<char>)
    ensures
        text_order(a, b) == Order::Equal <==> a == b,
{
    lemma_lex_order_equal(encode_utf8(a), encode_utf8(b), byte_order());
    if encode_utf8(a) == encode_utf8(b) {
        encode_utf8_decode_utf8(a);
        encode_utf8_decode_utf8(b);
    }
}

/// Exchanging two texts reverses their byte-wise order.
pub proof fn lemma_text_order_reversed(a: Seq<char>, b: Seq<char>)
    ensures
        text_order(b, a) == text_order(a, b).reversed(),
{
    lemma_lex_order_reversed(encode_utf8(a), encode_utf8(b), byte_order());
}

/// `Less` chains in byte-wise order.
pub proof fn lemma_text_order_transitive(a: Seq<char>, b: Seq<char>, c: Seq<char>)
    requires
        text_order(a, b) == Order::Less,
        text_order(b, c) == Order::Less,
    ensures
        text_order(a, c) == Order::Less,
{
    lemma_lex_order_transitive(encode_utf8(a), encode_utf8(b), encode_utf8(c), byte_order());
}

/// The string slice that a borrowed-or-owned text holds.
pub fn cow_str<'b, 'a>(text: &'b Cow<'a, str>) -> (s: &'b str)
    ensures
        s@ == text@,
{
    match text {
        Cow::Borrowed(b) => b,
        Cow::Owned(o) => o.as_str(),
    }
}

/// A copy of a borrowed-or-owned text that holds it the same way: a borrowed text stays
/// borrowed from the same buffer, an owned text is duplicated.
pub fn clone_text<'a>(text: &Cow<'a, str>) -> (copy: Cow<'a, str>)
    ensures
        copy == *text,
{
    match text {
        Cow::Borrowed(b) => Cow::Borrowed(*b),
        Cow::Owned(o) => Cow::Owned(o.clone()),
    }
}

/// Compares two byte strings lexicographically.
pub fn order_bytes(a: &[u8], b: &[u8]) -> (o: Order)
    ensures
        o == bytes_order(a@, b@),
{
    let n = if a.len() < b.len() {
        a.len()
    } else {
        b.len()
    };
    let mut i: usize = 0;
    while i < n
        invariant
            i <= n,
            n <= a@.len(),
            n <= b@.len(),
            forall|k: int| 0 <= k < i ==> a@[k] == b@[k],
        decreases n - i,
    {
        if a[i] != b[i] {
            proof {
                lemma_lex_order_skip(a@, b@, byte_order(), i as int);
                assert(a@.skip(i as int)[0] == a@[i as int]);
                assert(b@.skip(i as int)[0] == b@[i as int]);
            }
            return if a[i] < b[i] {
                Order::Less
            } else {
                Order::Greater
            };
        }
        i += 1;
    }
    proof {
        lemma_lex_order_skip(a@, b@, byte_order(), n as int);
    }
    if a.len() < b.len() {
        Order::Less
    } else if a.len() > b.len() {
        Order::Greater
    } else {
        Order::Equal
    }
}

/// Compares two string slices byte by byte.
pub fn order_str(a: &str, b: &str) -> (o: Order)
    ensures
        o == text_order(a@, b@),
{
    order_bytes(a.as_bytes(), b.as_bytes())
}

/// Whether two string slices hold the same characters.
pub fn same_str(a: &str, b: &str) -> (same: bool)
    ensures
        same == (a@ == b@),
{
    proof {
        lemma_text_order_equal(a@, b@);
    }
    match order_str(a, b) {
        Order::Equal => true,
        _ => false,
    }
}

} // verus!
