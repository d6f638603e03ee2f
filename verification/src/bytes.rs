//! Little-endian byte strings as natural numbers.

use vstd::prelude::*;

verus! {

/// The natural number that `bytes` spells in little-endian order: byte `i`
/// contributes `bytes[i] * 256^i`.
pub open spec fn le_value(bytes: Seq<u8>) -> nat
    decreases bytes.len(),
{
    if bytes.len() == 0 {
        0
    } else {
        bytes[0] as nat + 256 * le_value(bytes.drop_first())
    }
}

/// Two byte strings of one length that spell the same number are the same
/// string: a fixed-width little-endian encoding is unique.
pub proof fn lemma_le_value_injective(a: Seq<u8>, b: Seq<u8>)
    requires
        a.len() == b.len(),
        le_value(a) == le_value(b),
    ensures
        a == b,
    decreases a.len(),
{
    if a.len() > 0 {
        let ta = a.drop_first();
        let tb = b.drop_first();
        assert(le_value(a) == a[0] as nat + 256 * le_value(ta));
        assert(le_value(b) == b[0] as nat + 256 * le_value(tb));
        assert(a[0] == b[0]);
        lemma_le_value_injective(ta, tb);
        assert(a =~= seq![a[0]] + ta);
        assert(b =~= seq![b[0]] + tb);
    } else {
        assert(a =~= b);
    }
}

/// Two 32-byte representations that spell the same number are the same
/// bytes: what an element serialises to is determined by its value.
pub proof fn lemma_repr_determined(a: [u8; 32], b: [u8; 32])
    requires
        le_value(a@) == le_value(b@),
    ensures
        a == b,
{
    lemma_le_value_injective(a@, b@);
    assert(a =~= b);
}

/// The bytes from `i` on spell the byte at `i` plus 256 times what the
/// bytes after it spell.
pub proof fn lemma_le_value_skip(bytes: Seq<u8>, i: int)
    requires
        0 <= i < bytes.len(),
    ensures
        le_value(bytes.skip(i)) == bytes[i] + 256 * le_value(bytes.skip(i + 1)),
{
    assert(bytes.skip(i).drop_first() =~= bytes.skip(i + 1));
}

/// Of two byte strings of one length, the one whose bytes from `i` on spell
/// less spells less: the higher bytes decide.
pub proof fn lemma_high_bytes_decide(a: Seq<u8>, b: Seq<u8>, i: int)
    requires
        a.len() == b.len(),
        0 <= i <= a.len(),
        le_value(a.skip(i)) < le_value(b.skip(i)),
    ensures
        le_value(a) < le_value(b),
    decreases i,
{
    if i == 0 {
        assert(a.skip(0) =~= a);
        assert(b.skip(0) =~= b);
    } else {
        lemma_le_value_skip(a, i - 1);
        lemma_le_value_skip(b, i - 1);
        lemma_high_bytes_decide(a, b, i - 1);
    }
}

/// Whether `a` spells a smaller number than `b`.
pub fn le_less_than(a: &[u8; 32], b: &[u8; 32]) -> (less: bool)
    ensures
        less == (le_value(a@) < le_value(b@)),
{
    let mut i: usize = 32;
    assert(a@.skip(32) =~= b@.skip(32));
    while i > 0
        invariant
            i <= 32,
            le_value(a@.skip(i as int)) == le_value(b@.skip(i as int)),
        decreases i,
    {
        i -= 1;
        proof {
            lemma_le_value_skip(a@, i as int);
            lemma_le_value_skip(b@, i as int);
        }
        if a[i] < b[i] {
            proof {
                lemma_high_bytes_decide(a@, b@, i as int);
            }
            return true;
        }
        if a[i] > b[i] {
            proof {
                lemma_high_bytes_decide(b@, a@, i as int);
            }
            return false;
        }
    }
    assert(a@.skip(0) =~= a@);
    assert(b@.skip(0) =~= b@);
    false
}

/// A string of zero bytes spells zero.
pub proof fn lemma_le_value_zeros(bytes: Seq<u8>)
    requires
        forall|i: int| 0 <= i < bytes.len() ==> bytes[i] == 0,
    ensures
        le_value(bytes) == 0,
    decreases bytes.len(),
{
    if bytes.len() > 0 {
        lemma_le_value_zeros(bytes.drop_first());
    }
}

} // verus!
