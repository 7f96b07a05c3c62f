//! The DNA combinator: a per-bit multiplexer over two genetic payloads.
use vstd::prelude::*;

verus! {

/// A unit's genetic payload: sixteen bytes, fixed at creation.
#[derive(Clone, Copy, Debug, PartialEq, Eq)]
pub struct Kitty(pub [u8; 16]);

/// One byte of offspring DNA: each bit set in `selector` takes the bit of
/// `dna1`, each bit clear takes the bit of `dna2`.
pub open spec fn combine_dna_spec(dna1: u8, dna2: u8, selector: u8) -> u8 {
    (selector & dna1) | (!selector & dna2)
}

/// Offspring DNA, byte by byte.
pub open spec fn combine_spec(dna1: Seq<u8>, dna2: Seq<u8>, selector: Seq<u8>) -> Seq<u8> {
    Seq::new(16, |i: int| combine_dna_spec(dna1[i], dna2[i], selector[i]))
}

/// Combines one byte of each parent's DNA under one byte of the selector.
pub fn combine_dna(dna1: u8, dna2: u8, selector: u8) -> (r: u8)
    ensures
        r == combine_dna_spec(dna1, dna2, selector),
{
    (selector & dna1) | (!selector & dna2)
}

/// Combines two payloads under a selector; a pure function of its inputs.
pub fn combine(dna1: &[u8; 16], dna2: &[u8; 16], selector: &[u8; 16]) -> (r: [u8; 16])
    ensures
        r@ == combine_spec(dna1@, dna2@, selector@),
{
    let mut new_dna: [u8; 16] = [0u8; 16];
    let mut i: usize = 0;
    while i < 16
        invariant
            i <= 16,
            new_dna@.len() == 16,
            forall|j: int| 0 <= j < i ==> new_dna@[j] == combine_dna_spec(dna1@[j], dna2@[j], selector@[j]),
        decreases 16 - i,
    {
        new_dna[i] = combine_dna(dna1[i], dna2[i], selector[i]);
        i = i + 1;
    }
    assert(new_dna@ =~= combine_spec(dna1@, dna2@, selector@));
    new_dna
}

/// A selector of all ones passes the first payload through whole, and one of
/// all zeros the second.
pub proof fn lemma_combine_extreme_selectors(dna1: Seq<u8>, dna2: Seq<u8>, selector: Seq<u8>)
    requires
        dna1.len() == 16,
        dna2.len() == 16,
        selector.len() == 16,
    ensures
        (forall|i: int| 0 <= i < 16 ==> selector[i] == 0xffu8) ==> combine_spec(dna1, dna2, selector) == dna1,
        (forall|i: int| 0 <= i < 16 ==> selector[i] == 0u8) ==> combine_spec(dna1, dna2, selector) == dna2,
{
    assert forall|a: u8, b: u8| #[trigger] combine_dna_spec(a, b, 0xffu8) == a by {
        assert((0xffu8 & a) | (!0xffu8 & b) == a) by (bit_vector);
    }
    assert forall|a: u8, b: u8| #[trigger] combine_dna_spec(a, b, 0u8) == b by {
        assert((0u8 & a) | (!0u8 & b) == b) by (bit_vector);
    }
    if forall|i: int| 0 <= i < 16 ==> selector[i] == 0xffu8 {
        assert(combine_spec(dna1, dna2, selector) =~= dna1);
    }
    if forall|i: int| 0 <= i < 16 ==> selector[i] == 0u8 {
        assert(combine_spec(dna1, dna2, selector) =~= dna2);
    }
}

} // verus!
