//! The two prime fields of secp256k1: the base field `Fp`, over which the
//! curve is defined, and the scalar field `Fq`, the order of its group.
//!
//! An element is held as its canonical 32 bytes, and whether 32 bytes are
//! canonical is decided here. The arithmetic itself is done by
//! `halo2curves`; the functions that call it are the trusted part of this
//! module and say of each call what the integers do.

use crate::bytes::{le_less_than, le_value, lemma_le_value_zeros};
use crate::traits::PoseidonField;
use vstd::prelude::*;

verus! {

/// The prime `2^256 - 2^32 - 977`.
pub open spec fn base_modulus() -> nat {
    0xfffffffffffffffffffffffffffffffffffffffffffffffffffffffefffffc2fnat
}

/// The prime order of the secp256k1 group.
pub open spec fn scalar_modulus() -> nat {
    0xfffffffffffffffffffffffffffffffebaaedce6af48a03bbfd25e8cd0364141nat
}

/// The base modulus, least significant byte first.
fn base_modulus_bytes() -> (m: [u8; 32])
    ensures
        le_value(m@) == base_modulus(),
{
    proof {
        reveal_with_fuel(le_value, 33);
    }
    [
        0x2f, 0xfc, 0xff, 0xff, 0xfe, 0xff, 0xff, 0xff, 0xff, 0xff, 0xff, 0xff, 0xff, 0xff, 0xff,
        0xff, 0xff, 0xff, 0xff, 0xff, 0xff, 0xff, 0xff, 0xff, 0xff, 0xff, 0xff, 0xff, 0xff, 0xff,
        0xff, 0xff,
    ]
}

/// The scalar modulus, least significant byte first.
fn scalar_modulus_bytes() -> (m: [u8; 32])
    ensures
        le_value(m@) == scalar_modulus(),
{
    proof {
        reveal_with_fuel(le_value, 33);
    }
    [
        0x41, 0x41, 0x36, 0xd0, 0x8c, 0x5e, 0xd2, 0xbf, 0x3b, 0xa0, 0x48, 0xaf, 0xe6, 0xdc, 0xae,
        0xba, 0xfe, 0xff, 0xff, 0xff, 0xff, 0xff, 0xff, 0xff, 0xff, 0xff, 0xff, 0xff, 0xff, 0xff,
        0xff, 0xff,
    ]
}

/// Trusted: `halo2curves::secp256k1::Fp::add`, between `from_bytes` on each
/// operand and `to_bytes` on the result. The bytes given back spell the sum
/// of the two numbers reduced by the modulus.
#[verifier::external_body]
fn base_add(a: &[u8; 32], b: &[u8; 32]) -> (r: [u8; 32])
    requires
        le_value(a@) < base_modulus(),
        le_value(b@) < base_modulus(),
    ensures
        le_value(r@) == (le_value(a@) + le_value(b@)) % base_modulus(),
{
    let x = halo2curves::secp256k1::Fp::from_bytes(a).unwrap();
    let y = halo2curves::secp256k1::Fp::from_bytes(b).unwrap();
    halo2curves::secp256k1::Fp::add(&x, &y).to_bytes()
}

/// Trusted: `halo2curves::secp256k1::Fp::mul`, between `from_bytes` on each
/// operand and `to_bytes` on the result. The bytes given back spell the
/// product of the two numbers reduced by the modulus.
#[verifier::external_body]
fn base_mul(a: &[u8; 32], b: &[u8; 32]) -> (r: [u8; 32])
    requires
        le_value(a@) < base_modulus(),
        le_value(b@) < base_modulus(),
    ensures
        le_value(r@) == (le_value(a@) * le_value(b@)) % base_modulus(),
{
    let x = halo2curves::secp256k1::Fp::from_bytes(a).unwrap();
    let y = halo2curves::secp256k1::Fp::from_bytes(b).unwrap();
    halo2curves::secp256k1::Fp::mul(&x, &y).to_bytes()
}

/// Trusted: `halo2curves::secp256k1::Fp::square`, between `from_bytes` on
/// the operand and `to_bytes` on the result. The bytes given back spell the
/// square of the number reduced by the modulus.
#[verifier::external_body]
fn base_square(a: &[u8; 32]) -> (r: [u8; 32])
    requires
        le_value(a@) < base_modulus(),
    ensures
        le_value(r@) == (le_value(a@) * le_value(a@)) % base_modulus(),
{
    let x = halo2curves::secp256k1::Fp::from_bytes(a).unwrap();
    halo2curves::secp256k1::Fp::square(&x).to_bytes()
}

/// An element of the secp256k1 base field.
#[derive(Clone, Copy, Debug, PartialEq, Eq)]
pub struct Fp {
    repr: [u8; 32],
}

impl Fp {
    #[verifier::type_invariant]
    spec fn canonical(self) -> bool {
        le_value(self.repr@) < base_modulus()
    }

    /// The element that 32 little-endian bytes spell, if they spell a number
    /// below the modulus.
    pub fn from_repr(repr: [u8; 32]) -> (r: Option<Fp>)
        ensures
            r is Some <==> le_value(repr@) < base_modulus(),
            r matches Some(x) ==> x.value() == le_value(repr@),
    {
        if le_less_than(&repr, &base_modulus_bytes()) {
            Some(Fp { repr })
        } else {
            None
        }
    }
}

impl PoseidonField for Fp {
    open spec fn modulus() -> nat {
        base_modulus()
    }

    closed spec fn value(&self) -> nat {
        le_value(self.repr@) % base_modulus()
    }

    proof fn lemma_modulus_positive() {
    }

    proof fn lemma_value_reduced(x: Self) {
    }

    fn zero() -> (z: Self) {
        let repr = [0u8; 32];
        proof {
            lemma_le_value_zeros(repr@);
        }
        Fp { repr }
    }

    fn add(&self, rhs: &Self) -> (r: Self) {
        proof {
            use_type_invariant(self);
            use_type_invariant(rhs);
        }
        Fp { repr: base_add(&self.repr, &rhs.repr) }
    }

    fn mul(&self, rhs: &Self) -> (r: Self) {
        proof {
            use_type_invariant(self);
            use_type_invariant(rhs);
        }
        Fp { repr: base_mul(&self.repr, &rhs.repr) }
    }

    fn square(&self) -> (r: Self) {
        proof {
            use_type_invariant(self);
        }
        Fp { repr: base_square(&self.repr) }
    }

    fn to_repr(&self) -> (r: [u8; 32]) {
        proof {
            use_type_invariant(self);
        }
        self.repr
    }
}

/// Trusted: `halo2curves::secp256k1::Fq::add`, between `from_bytes` on each
/// operand and `to_bytes` on the result. The bytes given back spell the sum
/// of the two numbers reduced by the modulus.
#[verifier::external_body]
fn scalar_add(a: &[u8; 32], b: &[u8; 32]) -> (r: [u8; 32])
    requires
        le_value(a@) < scalar_modulus(),
        le_value(b@) < scalar_modulus(),
    ensures
        le_value(r@) == (le_value(a@) + le_value(b@)) % scalar_modulus(),
{
    let x = halo2curves::secp256k1::Fq::from_bytes(a).unwrap();
    let y = halo2curves::secp256k1::Fq::from_bytes(b).unwrap();
    halo2curves::secp256k1::Fq::add(&x, &y).to_bytes()
}

/// Trusted: `halo2curves::secp256k1::Fq::mul`, between `from_bytes` on each
/// operand and `to_bytes` on the result. The bytes given back spell the
/// product of the two numbers reduced by the modulus.
#[verifier::external_body]
fn scalar_mul(a: &[u8; 32], b: &[u8; 32]) -> (r: [u8; 32])
    requires
        le_value(a@) < scalar_modulus(),
        le_value(b@) < scalar_modulus(),
    ensures
        le_value(r@) == (le_value(a@) * le_value(b@)) % scalar_modulus(),
{
    let x = halo2curves::secp256k1::Fq::from_bytes(a).unwrap();
    let y = halo2curves::secp256k1::Fq::from_bytes(b).unwrap();
    halo2curves::secp256k1::Fq::mul(&x, &y).to_bytes()
}

/// Trusted: `halo2curves::secp256k1::Fq::square`, between `from_bytes` on
/// the operand and `to_bytes` on the result. The bytes given back spell the
/// square of the number reduced by the modulus.
#[verifier::external_body]
fn scalar_square(a: &[u8; 32]) -> (r: [u8; 32])
    requires
        le_value(a@) < scalar_modulus(),
    ensures
        le_value(r@) == (le_value(a@) * le_value(a@)) % scalar_modulus(),
{
    let x = halo2curves::secp256k1::Fq::from_bytes(a).unwrap();
    halo2curves::secp256k1::Fq::square(&x).to_bytes()
}

/// An element of the secp256k1 scalar field.
#[derive(Clone, Copy, Debug, PartialEq, Eq)]
pub struct Fq {
    repr: [u8; 32],
}

impl Fq {
    #[verifier::type_invariant]
    spec fn canonical(self) -> bool {
        le_value(self.repr@) < scalar_modulus()
    }

    /// The element that 32 little-endian bytes spell, if they spell a number
    /// below the modulus.
    pub fn from_repr(repr: [u8; 32]) -> (r: Option<Fq>)
        ensures
            r is Some <==> le_value(repr@) < scalar_modulus(),
            r matches Some(x) ==> x.value() == le_value(repr@),
    {
        if le_less_than(&repr, &scalar_modulus_bytes()) {
            Some(Fq { repr })
        } else {
            None
        }
    }
}

impl PoseidonField for Fq {
    open spec fn modulus() -> nat {
        scalar_modulus()
    }

    closed spec fn value(&self) -> nat {
        le_value(self.repr@) % scalar_modulus()
    }

    proof fn lemma_modulus_positive() {
    }

    proof fn lemma_value_reduced(x: Self) {
    }

    fn zero() -> (z: Self) {
        let repr = [0u8; 32];
        proof {
            lemma_le_value_zeros(repr@);
        }
        Fq { repr }
    }

    fn add(&self, rhs: &Self) -> (r: Self) {
        proof {
            use_type_invariant(self);
            use_type_invariant(rhs);
        }
        Fq { repr: scalar_add(&self.repr, &rhs.repr) }
    }

    fn mul(&self, rhs: &Self) -> (r: Self) {
        proof {
            use_type_invariant(self);
            use_type_invariant(rhs);
        }
        Fq { repr: scalar_mul(&self.repr, &rhs.repr) }
    }

    fn square(&self) -> (r: Self) {
        proof {
            use_type_invariant(self);
        }
        Fq { repr: scalar_square(&self.repr) }
    }

    fn to_repr(&self) -> (r: [u8; 32]) {
        proof {
            use_type_invariant(self);
        }
        self.repr
    }
}

} // verus!
