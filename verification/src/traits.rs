//! The field capability that the permutation is generic over.

use crate::bytes::le_value;
use vstd::prelude::*;

verus! {

/// A prime field that Poseidon can run over.
///
/// An element stands for a residue modulo [`PoseidonField::modulus`]; its
/// [`PoseidonField::value`] is the natural number that names the residue. The
/// arithmetic is specified on those numbers, so every contract of the
/// permutation and of the sponge is a statement about integers modulo the
/// field's prime.
pub trait PoseidonField: Sized + Copy {
    /// The order of the field.
    spec fn modulus() -> nat;

    /// The number this element stands for.
    spec fn value(&self) -> nat;

    /// The modulus is not zero, so reduction by it is defined.
    proof fn lemma_modulus_positive()
        ensures
            Self::modulus() > 0,
    ;

    /// An element's number is a residue: it lies below the modulus.
    proof fn lemma_value_reduced(x: Self)
        ensures
            x.value() < Self::modulus(),
    ;

    /// The additive identity.
    fn zero() -> (z: Self)
        ensures
            z.value() == 0,
    ;

    /// Field addition.
    fn add(&self, rhs: &Self) -> (r: Self)
        ensures
            r.value() == (self.value() + rhs.value()) % Self::modulus(),
    ;

    /// Field multiplication.
    fn mul(&self, rhs: &Self) -> (r: Self)
        ensures
            r.value() == (self.value() * rhs.value()) % Self::modulus(),
    ;

    /// Field squaring.
    fn square(&self) -> (r: Self)
        ensures
            r.value() == (self.value() * self.value()) % Self::modulus(),
    ;

    /// The element's canonical 32 bytes: its number, little-endian.
    fn to_repr(&self) -> (r: [u8; 32])
        ensures
            le_value(r@) == self.value(),
    ;
}

/// The numbers that a sequence of field elements stands for.
pub open spec fn values<F: PoseidonField>(elements: Seq<F>) -> Seq<nat> {
    Seq::new(elements.len(), |i: int| elements[i].value())
}

} // verus!
