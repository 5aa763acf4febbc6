//! Text helpers: the byte-wise order of strings, and string equality.

use vstd::prelude::*;
use crate::ieee754::Comparison;
use vstd::utf8::{encode_utf8, decode_utf8};

verus! {

broadcast use vstd::utf8::encode_utf8_decode_utf8;

/// Lexicographic order of byte sequences (a proper prefix orders first).
pub open spec fn compare_bytes(a: Seq<u8>, b: Seq<u8>) -> Comparison
    decreases a.len(),
{
    if a.len() == 0 {
        if b.len() == 0 {
            Comparison::Equal
        } else {
            Comparison::Less
        }
    } else if b.len() == 0 {
        Comparison::Greater
    } else if a[0] < b[0] {
        Comparison::Less
    } else if a[0] > b[0] {
        Comparison::Greater
    } else {
        compare_bytes(a.drop_first(), b.drop_first())
    }
}

/// The comparison seen from the other side.
pub open spec fn flip(c: Comparison) -> Comparison {
    match c {
        Comparison::Less => Comparison::Greater,
        Comparison::Equal => Comparison::Equal,
        Comparison::Greater => Comparison::Less,
    }
}

/// Byte sequences compare `Equal` exactly when they are the same sequence.
pub proof fn lemma_compare_bytes_equal(a: Seq<u8>, b: Seq<u8>)
    ensures
        (compare_bytes(a, b) == Comparison::Equal) <==> a == b,
    decreases a.len(),
{
    if a.len() == 0 && b.len() == 0 {
        assert(a =~= b);
    }
    if a.len() > 0 && b.len() > 0 && a[0] == b[0] {
        lemma_compare_bytes_equal(a.drop_first(), b.drop_first());
        if a.drop_first() == b.drop_first() {
            assert(a =~= seq![a[0]] + a.drop_first());
            assert(b =~= seq![b[0]] + b.drop_first());
        }
        if a == b {
            assert(a.drop_first() =~= b.drop_first());
        }
    }
}

/// Swapping the operands flips the comparison.
pub proof fn lemma_compare_bytes_flip(a: Seq<u8>, b: Seq<u8>)
    ensures
        compare_bytes(b, a) == flip(compare_bytes(a, b)),
    decreases a.len(),
{
    if a.len() > 0 && b.len() > 0 && a[0] == b[0] {
        lemma_compare_bytes_flip(a.drop_first(), b.drop_first());
    }
}

/// The byte order is transitive, and strict as soon as one step is strict.
pub proof fn lemma_compare_bytes_transitive(a: Seq<u8>, b: Seq<u8>, c: Seq<u8>)
    requires
        compare_bytes(a, b) != Comparison::Greater,
        compare_bytes(b, c) != Comparison::Greater,
    ensures
        compare_bytes(a, c) != Comparison::Greater,
        (compare_bytes(a, b) == Comparison::Less || compare_bytes(b, c) == Comparison::Less)
            ==> compare_bytes(a, c) == Comparison::Less,
    decreases a.len(),
{
    if a.len() > 0 && b.len() > 0 && c.len() > 0 && a[0] == b[0] && b[0] == c[0] {
        lemma_compare_bytes_transitive(a.drop_first(), b.drop_first(), c.drop_first());
    }
}

/// Lexicographic comparison of two byte slices.
pub fn compare_byte_slices(a: &[u8], b: &[u8]) -> (c: Comparison)
    ensures
        c == compare_bytes(a@, b@),
{
    let mut i: usize = 0;
    assert(a@.skip(0) =~= a@);
    assert(b@.skip(0) =~= b@);
    while i < a.len() && i < b.len()
        invariant
            i <= a@.len(),
            i <= b@.len(),
            compare_bytes(a@, b@) == compare_bytes(a@.skip(i as int), b@.skip(i as int)),
        decreases a.len() - i,
    {
        if a[i] < b[i] {
            return Comparison::Less;
        }
        if a[i] > b[i] {
            return Comparison::Greater;
        }
        assert(a@.skip(i as int).drop_first() =~= a@.skip(i + 1));
        assert(b@.skip(i as int).drop_first() =~= b@.skip(i + 1));
        i = i + 1;
    }
    if i < b.len() {
        Comparison::Less
    } else if i < a.len() {
        Comparison::Greater
    } else {
        Comparison::Equal
    }
}

/// The order `str`'s `Ord` uses: byte-wise over the UTF-8 encodings.
pub open spec fn compare_texts(a: Seq<char>, b: Seq<char>) -> Comparison {
    compare_bytes(encode_utf8(a), encode_utf8(b))
}

/// Byte-wise comparison of two strings.
pub fn compare_strs(a: &str, b: &str) -> (c: Comparison)
    ensures
        c == compare_texts(a@, b@),
{
    compare_byte_slices(a.as_bytes(), b.as_bytes())
}

/// Texts compare `Equal` exactly when they are the same text.
pub proof fn lemma_compare_texts_equal(a: Seq<char>, b: Seq<char>)
    ensures
        (compare_texts(a, b) == Comparison::Equal) <==> a == b,
{
    lemma_compare_bytes_equal(encode_utf8(a), encode_utf8(b));
    if encode_utf8(a) == encode_utf8(b) {
        assert(decode_utf8(encode_utf8(a)) == a);
        assert(decode_utf8(encode_utf8(b)) == b);
    }
}

/// String equality.
pub fn str_equals(a: &str, b: &str) -> (eq: bool)
    ensures
        eq == (a@ == b@),
{
    proof {
        lemma_compare_texts_equal(a@, b@);
    }
    match compare_strs(a, b) {
        Comparison::Equal => true,
        _ => false,
    }
}

} // verus!
