//! Genetic codes and the deterministic genetic combiner.

use vstd::prelude::*;

verus! {

/// An entity's immutable genetic code: 16 opaque bytes.
#[derive(Clone, Copy, PartialEq, Eq, Debug)]
pub struct Kitty(pub [u8; 16]);

/// One byte of the genetic combination: each bit of `selector` chooses,
/// independently, whether the corresponding bit comes from `dna1` (bit set)
/// or from `dna2` (bit clear).
pub open spec fn combine_byte(dna1: u8, dna2: u8, selector: u8) -> u8 {
    (selector & dna1) | (!selector & dna2)
}

/// The full 16-byte combination, byte by byte.
pub open spec fn combine_codes(dna1: Seq<u8>, dna2: Seq<u8>, selector: Seq<u8>) -> Seq<u8> {
    Seq::new(16, |i: int| combine_byte(dna1[i], dna2[i], selector[i]))
}

/// Bit `j` of a combined byte comes from `dna1` when bit `j` of the
/// selector is set and from `dna2` when it is clear — it depends on no
/// other bit of the selector.
pub proof fn lemma_combine_byte_bit(dna1: u8, dna2: u8, selector: u8, j: u8)
    requires
        j < 8,
    ensures
        (combine_byte(dna1, dna2, selector) >> j) & 1 == if (selector >> j) & 1 == 1 {
            (dna1 >> j) & 1
        } else {
            (dna2 >> j) & 1
        },
{
    assert((((selector & dna1) | (!selector & dna2)) >> j) & 1 == if (selector >> j) & 1 == 1 {
        (dna1 >> j) & 1
    } else {
        (dna2 >> j) & 1
    }) by (bit_vector)
        requires
            j < 8,
    ;
}

/// The combiner is bit-local: flipping bit `k` of the selector toggles only
/// which parent supplies bit `k` of the result. Every other bit position of
/// the combined byte is unchanged, and at position `k` the choice between
/// the parents is inverted.
pub proof fn lemma_combine_bit_local(dna1: u8, dna2: u8, selector: u8, k: u8)
    requires
        k < 8,
    ensures
        forall|j: u8|
            j < 8 && j != k ==> (#[trigger] (combine_byte(dna1, dna2, (selector ^ (1u8 << k)))
                >> j)) & 1 == (combine_byte(dna1, dna2, selector) >> j) & 1,
        ((selector ^ (1u8 << k)) >> k) & 1 != (selector >> k) & 1,
        forall|s: u8|
            ((#[trigger] combine_byte(dna1, dna2, s)) >> k) & 1 == if (s >> k) & 1 == 1 {
                (dna1 >> k) & 1
            } else {
                (dna2 >> k) & 1
            },
{
    let flipped = selector ^ (1u8 << k);
    assert forall|j: u8| j < 8 && j != k implies (#[trigger] (combine_byte(dna1, dna2, flipped)
        >> j)) & 1 == (combine_byte(dna1, dna2, selector) >> j) & 1 by {
        lemma_combine_byte_bit(dna1, dna2, flipped, j);
        lemma_combine_byte_bit(dna1, dna2, selector, j);
        assert(((selector ^ (1u8 << k)) >> j) & 1 == (selector >> j) & 1) by (bit_vector)
            requires
                j < 8,
                k < 8,
                j != k,
        ;
    }
    assert(((selector ^ (1u8 << k)) >> k) & 1 != (selector >> k) & 1) by (bit_vector)
        requires
            k < 8,
    ;
    assert forall|s: u8| ((#[trigger] combine_byte(dna1, dna2, s)) >> k) & 1 == (if (s >> k) & 1
        == 1 {
        (dna1 >> k) & 1
    } else {
        (dna2 >> k) & 1
    }) by {
        lemma_combine_byte_bit(dna1, dna2, s, k);
    }
}

/// Bit-locality over the whole 16-byte code: flipping bit `k` of byte `p`
/// of the selector leaves every other byte of the combined code unchanged,
/// and within byte `p` changes nothing but which parent supplies bit `k`.
pub proof fn lemma_combine_codes_bit_local(
    dna1: Seq<u8>,
    dna2: Seq<u8>,
    sel1: Seq<u8>,
    sel2: Seq<u8>,
    p: int,
    k: u8,
)
    requires
        sel1.len() == 16,
        sel2.len() == 16,
        0 <= p < 16,
        k < 8,
        sel2[p] == sel1[p] ^ (1u8 << k),
        forall|i: int| 0 <= i < 16 && i != p ==> sel1[i] == #[trigger] sel2[i],
    ensures
        forall|i: int|
            0 <= i < 16 && i != p ==> #[trigger] combine_codes(dna1, dna2, sel2)[i]
                == combine_codes(dna1, dna2, sel1)[i],
        forall|j: u8|
            j < 8 && j != k ==> (#[trigger] (combine_codes(dna1, dna2, sel2)[p] >> j)) & 1 == (
            combine_codes(dna1, dna2, sel1)[p] >> j) & 1,
        (sel2[p] >> k) & 1 != (sel1[p] >> k) & 1,
        forall|s: Seq<u8>|
            s.len() == 16 ==> ((#[trigger] combine_codes(dna1, dna2, s)[p]) >> k) & 1 == if (s[p]
                >> k) & 1 == 1 {
                (dna1[p] >> k) & 1
            } else {
                (dna2[p] >> k) & 1
            },
{
    lemma_combine_bit_local(dna1[p], dna2[p], sel1[p], k);
    assert forall|s: Seq<u8>| s.len() == 16 implies ((#[trigger] combine_codes(dna1, dna2, s)[p])
        >> k) & 1 == (if (s[p] >> k) & 1 == 1 {
        (dna1[p] >> k) & 1
    } else {
        (dna2[p] >> k) & 1
    }) by {
        lemma_combine_byte_bit(dna1[p], dna2[p], s[p], k);
    }
}

} // verus!
