//! The order in which the database lists text: by the bytes of its UTF-8
//! encoding, a proper prefix before what extends it.

use vstd::prelude::*;
use vstd::utf8::{encode_utf8, encode_utf8_decode_utf8};

verus! {

/// Whether byte string `a` comes strictly before `b`.
pub open spec fn bytes_precede(a: Seq<u8>, b: Seq<u8>) -> bool
    decreases a.len(),
{
    if b.len() == 0 {
        false
    } else if a.len() == 0 {
        true
    } else if a[0] != b[0] {
        a[0] < b[0]
    } else {
        bytes_precede(a.drop_first(), b.drop_first())
    }
}

/// Whether text `a` comes strictly before `b`.
pub open spec fn precedes(a: Seq<char>, b: Seq<char>) -> bool {
    bytes_precede(encode_utf8(a), encode_utf8(b))
}

pub proof fn lemma_bytes_irreflexive(a: Seq<u8>)
    ensures
        !bytes_precede(a, a),
    decreases a.len(),
{
    if a.len() > 0 {
        lemma_bytes_irreflexive(a.drop_first());
    }
}

pub proof fn lemma_bytes_transitive(a: Seq<u8>, b: Seq<u8>, c: Seq<u8>)
    requires
        bytes_precede(a, b),
        bytes_precede(b, c),
    ensures
        bytes_precede(a, c),
    decreases a.len(),
{
    if a.len() > 0 && a[0] == b[0] && b[0] == c[0] {
        lemma_bytes_transitive(a.drop_first(), b.drop_first(), c.drop_first());
    }
}

pub proof fn lemma_bytes_connected(a: Seq<u8>, b: Seq<u8>)
    requires
        !bytes_precede(a, b),
        !bytes_precede(b, a),
    ensures
        a == b,
    decreases a.len(),
{
    if a.len() == 0 || b.len() == 0 {
        assert(a =~= b);
    } else {
        lemma_bytes_connected(a.drop_first(), b.drop_first());
        assert(a =~= seq![a[0]] + a.drop_first());
        assert(b =~= seq![b[0]] + b.drop_first());
    }
}

/// No text comes before itself.
pub proof fn lemma_irreflexive(a: Seq<char>)
    ensures
        !precedes(a, a),
{
    lemma_bytes_irreflexive(encode_utf8(a));
}

/// What comes before something that comes before `c` comes before `c`.
pub proof fn lemma_transitive(a: Seq<char>, b: Seq<char>, c: Seq<char>)
    requires
        precedes(a, b),
        precedes(b, c),
    ensures
        precedes(a, c),
{
    lemma_bytes_transitive(encode_utf8(a), encode_utf8(b), encode_utf8(c));
}

/// Of two texts, neither of which comes before the other, there is only
/// one.
pub proof fn lemma_connected(a: Seq<char>, b: Seq<char>)
    requires
        !precedes(a, b),
        !precedes(b, a),
    ensures
        a == b,
{
    lemma_bytes_connected(encode_utf8(a), encode_utf8(b));
    encode_utf8_decode_utf8(a);
    encode_utf8_decode_utf8(b);
}

/// Two texts never come before each other.
pub proof fn lemma_asymmetric(a: Seq<char>, b: Seq<char>)
    requires
        precedes(a, b),
    ensures
        !precedes(b, a),
{
    if precedes(b, a) {
        lemma_transitive(a, b, a);
        lemma_irreflexive(a);
    }
}

/// Compares two strings as the database orders them.
pub fn str_precedes(a: &str, b: &str) -> (before: bool)
    ensures
        before == precedes(a@, b@),
{
    let x = a.as_bytes();
    let y = b.as_bytes();
    let mut index: usize = 0;
    assert(x@.skip(0) =~= x@ && y@.skip(0) =~= y@);
    while index < x.len() && index < y.len()
        invariant
            x@ == encode_utf8(a@),
            y@ == encode_utf8(b@),
            index <= x.len(),
            index <= y.len(),
            bytes_precede(x@, y@) == bytes_precede(x@.skip(index as int), y@.skip(index as int)),
        decreases x.len() - index,
    {
        proof {
            assert(x@.skip(index as int).drop_first() =~= x@.skip(index + 1));
            assert(y@.skip(index as int).drop_first() =~= y@.skip(index + 1));
            assert(x@.skip(index as int)[0] == x@[index as int]);
            assert(y@.skip(index as int)[0] == y@[index as int]);
        }
        if x[index] != y[index] {
            return x[index] < y[index];
        }
        index += 1;
    }
    index < y.len()
}

/// Tells whether two strings are the same text.
pub fn str_same(a: &str, b: &str) -> (same: bool)
    ensures
        same == (a@ == b@),
{
    proof {
        lemma_irreflexive(a@);
        if !precedes(a@, b@) && !precedes(b@, a@) {
            lemma_connected(a@, b@);
        }
    }
    !str_precedes(a, b) && !str_precedes(b, a)
}

} // verus!
