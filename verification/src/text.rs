//! Spec-level model of a cluster table: the byte length of a character
//! sequence under UTF-8, and the byte offset at which each cluster of a
//! partition begins.

use vstd::prelude::*;
use vstd::seq_lib::lemma_flatten_concat;
use vstd::utf8::encode_utf8;

verus! {

/// The number of bytes in the UTF-8 encoding of a character sequence.
pub open spec fn byte_len(s: Seq<char>) -> nat {
    encode_utf8(s).len()
}

/// The byte offset at which cluster `i` of the cluster sequence `cs` begins:
/// the UTF-8 byte length of all clusters before it. At `i == cs.len()` this
/// is the byte length of the whole flattened text.
pub open spec fn start_of(cs: Seq<Seq<char>>, i: int) -> nat {
    byte_len(cs.take(i).flatten())
}

/// UTF-8 encoding distributes over concatenation of character sequences.
pub proof fn lemma_encode_utf8_concat(a: Seq<char>, b: Seq<char>)
    ensures
        encode_utf8(a + b) == encode_utf8(a) + encode_utf8(b),
    decreases a.len(),
{
    if a.len() == 0 {
        assert(a + b =~= b);
        assert(encode_utf8(a) + encode_utf8(b) =~= encode_utf8(b));
    } else {
        assert((a + b).drop_first() =~= a.drop_first() + b);
        lemma_encode_utf8_concat(a.drop_first(), b);
        assert(encode_utf8(a + b) =~= encode_utf8(a) + encode_utf8(b));
    }
}

/// A non-empty character sequence occupies at least one byte.
pub proof fn lemma_byte_len_pos(s: Seq<char>)
    requires
        s.len() > 0,
    ensures
        byte_len(s) >= 1,
{
    assert(encode_utf8(s) == vstd::utf8::encode_scalar(s[0] as u32) + encode_utf8(
        s.drop_first(),
    ));
    assert(vstd::utf8::encode_scalar(s[0] as u32).len() >= 1);
}

/// The start of cluster 0 is byte offset 0.
pub proof fn lemma_start_zero(cs: Seq<Seq<char>>)
    ensures
        start_of(cs, 0) == 0,
{
    assert(cs.take(0) =~= Seq::<Seq<char>>::empty());
    assert(cs.take(0).flatten() =~= Seq::<char>::empty());
    assert(encode_utf8(Seq::<char>::empty()).len() == 0);
}

/// Cluster `i + 1` starts exactly `byte_len(cs[i])` bytes after cluster `i`.
pub proof fn lemma_start_step(cs: Seq<Seq<char>>, i: int)
    requires
        0 <= i < cs.len(),
    ensures
        start_of(cs, i + 1) == start_of(cs, i) + byte_len(cs[i]),
{
    assert(cs.take(i + 1) =~= cs.take(i).push(cs[i]));
    cs.take(i).lemma_flatten_push(cs[i]);
    lemma_encode_utf8_concat(cs.take(i).flatten(), cs[i]);
    assert(cs.take(i).flatten() + cs[i] =~= cs.take(i + 1).flatten());
}

/// Cluster starts never decrease with the cluster index.
pub proof fn lemma_start_monotone(cs: Seq<Seq<char>>, i: int, j: int)
    requires
        0 <= i <= j <= cs.len(),
    ensures
        start_of(cs, i) <= start_of(cs, j),
    decreases j - i,
{
    if i < j {
        lemma_start_step(cs, j - 1);
        lemma_start_monotone(cs, i, j - 1);
    }
}

/// No cluster starts past the end of the flattened text.
pub proof fn lemma_start_le_total(cs: Seq<Seq<char>>, i: int)
    requires
        0 <= i <= cs.len(),
    ensures
        start_of(cs, i) <= byte_len(cs.flatten()),
{
    assert(cs =~= cs.take(i) + cs.skip(i));
    lemma_flatten_concat(cs.take(i), cs.skip(i));
    lemma_encode_utf8_concat(cs.take(i).flatten(), cs.skip(i).flatten());
    assert(encode_utf8(cs.flatten()) =~= encode_utf8(cs.take(i).flatten()) + encode_utf8(
        cs.skip(i).flatten(),
    ));
}

/// Taking the whole cluster sequence reaches exactly the end of the text.
pub proof fn lemma_start_total(cs: Seq<Seq<char>>)
    ensures
        start_of(cs, cs.len() as int) == byte_len(cs.flatten()),
{
    assert(cs.take(cs.len() as int) =~= cs);
}

} // verus!
