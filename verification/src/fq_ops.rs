//! Trusted plain-value field arithmetic.
//!
//! Each type here holds an arkworks field element of one concrete field —
//! the BLS12-377 base field (the native coordinate field, which is also the
//! BW6-761 scalar field), the BLS12-381 base field (the emulated coordinate
//! field) and the BLS12-381 scalar field (the emulated constraint field).
//! The element is opaque to the verifier; the residue it stands for is named
//! by an uninterpreted spec function, and every wrapper states its effect on
//! residues in the arithmetic of `crate::model`.
//!
//! These operate on plain field elements, outside any constraint system:
//! witness precomputation and the plain reference sum are built on them.
//! Values enter and leave as little-endian byte strings.
use vstd::prelude::*;
use crate::model::{bytes_le_int, fadd, fdiv, field_inv, fmul, fsub, q377, q381, r381};

verus! {

/// A plain BLS12-377 base field element.
#[verifier::external_body]
pub struct Fq377 {
    pub(crate) inner: ark_bls12_377::Fq,
}

/// A plain BLS12-381 base field element.
#[verifier::external_body]
pub struct Fq381 {
    pub(crate) inner: ark_bls12_381::Fq,
}

/// A plain BLS12-381 scalar field element.
#[verifier::external_body]
pub struct Fr381 {
    pub(crate) inner: ark_bls12_381::Fr,
}

/// The canonical residue a plain BLS12-377 base field element stands for.
pub uninterp spec fn fq377_int(a: Fq377) -> int;

/// The canonical residue a plain BLS12-381 base field element stands for.
pub uninterp spec fn fq381_int(a: Fq381) -> int;

/// The canonical residue a plain BLS12-381 scalar field element stands for.
pub uninterp spec fn fr381_int(a: Fr381) -> int;

/// Relies on `ark_ff::PrimeField::from_le_bytes_mod_order`: the element
/// whose residue is the little-endian integer of the bytes, reduced.
#[verifier::external_body]
pub fn fq377_from_le_bytes(b: &Vec<u8>) -> (r: Fq377)
    ensures
        fq377_int(r) == bytes_le_int(b@) % q377(),
{
    Fq377 { inner: <ark_bls12_377::Fq as ark_ff::PrimeField>::from_le_bytes_mod_order(b) }
}

/// Relies on `ark_ff::PrimeField::into_bigint` and its little-endian byte
/// serialization: the canonical (reduced) residue, little-endian.
#[verifier::external_body]
pub fn fq377_to_le_bytes(a: &Fq377) -> (r: Vec<u8>)
    ensures
        bytes_le_int(r@) == fq377_int(*a),
        bytes_le_int(r@) < q377(),
{
    ark_ff::BigInteger::to_bytes_le(&ark_ff::PrimeField::into_bigint(a.inner))
}

/// Relies on `ark_ff` subtraction on the BLS12-377 base field.
#[verifier::external_body]
pub fn fq377_sub(a: &Fq377, b: &Fq377) -> (r: Fq377)
    ensures
        fq377_int(r) == fsub(q377(), fq377_int(*a), fq377_int(*b)),
{
    Fq377 { inner: a.inner - b.inner }
}

/// Relies on `ark_ff` multiplication on the BLS12-377 base field.
#[verifier::external_body]
pub fn fq377_mul(a: &Fq377, b: &Fq377) -> (r: Fq377)
    ensures
        fq377_int(r) == fmul(q377(), fq377_int(*a), fq377_int(*b)),
{
    Fq377 { inner: a.inner * b.inner }
}

/// Relies on `ark_ff` division on the BLS12-377 base field, which multiplies
/// by the inverse of the divisor; the quotient satisfies `r * b = a` in the
/// field.  Division by zero is left out: it panics there.
#[verifier::external_body]
pub fn fq377_div(a: &Fq377, b: &Fq377) -> (r: Fq377)
    requires
        fq377_int(*b) % q377() != 0,
    ensures
        fq377_int(r) == fdiv(q377(), fq377_int(*a), fq377_int(*b)),
        fq377_int(r) == (fq377_int(*a) * field_inv(q377(), fq377_int(*b) % q377())) % q377(),
        fmul(q377(), fq377_int(r), fq377_int(*b)) == fq377_int(*a) % q377(),
{
    Fq377 { inner: a.inner / b.inner }
}

/// Relies on `ark_ff::Zero::is_zero` on the BLS12-377 base field.
#[verifier::external_body]
pub fn fq377_is_zero(a: &Fq377) -> (r: bool)
    ensures
        r == (fq377_int(*a) % q377() == 0),
{
    ark_ff::Zero::is_zero(&a.inner)
}

/// Relies on `Clone` for the arkworks element (it is a plain copy).
#[verifier::external_body]
pub fn fq377_clone(a: &Fq377) -> (r: Fq377)
    ensures
        fq377_int(r) == fq377_int(*a),
{
    Fq377 { inner: a.inner }
}

/// Relies on `ark_ff::PrimeField::from_le_bytes_mod_order` on the BLS12-381
/// base field.
#[verifier::external_body]
pub fn fq381_from_le_bytes(b: &Vec<u8>) -> (r: Fq381)
    ensures
        fq381_int(r) == bytes_le_int(b@) % q381(),
{
    Fq381 { inner: <ark_bls12_381::Fq as ark_ff::PrimeField>::from_le_bytes_mod_order(b) }
}

/// Relies on `ark_ff::PrimeField::into_bigint` and its little-endian byte
/// serialization on the BLS12-381 base field.
#[verifier::external_body]
pub fn fq381_to_le_bytes(a: &Fq381) -> (r: Vec<u8>)
    ensures
        bytes_le_int(r@) == fq381_int(*a),
        bytes_le_int(r@) < q381(),
{
    ark_ff::BigInteger::to_bytes_le(&ark_ff::PrimeField::into_bigint(a.inner))
}

/// Relies on `ark_ff` addition on the BLS12-381 base field.
#[verifier::external_body]
pub fn fq381_add(a: &Fq381, b: &Fq381) -> (r: Fq381)
    ensures
        fq381_int(r) == fadd(q381(), fq381_int(*a), fq381_int(*b)),
{
    Fq381 { inner: a.inner + b.inner }
}

/// Relies on `ark_ff` subtraction on the BLS12-381 base field.
#[verifier::external_body]
pub fn fq381_sub(a: &Fq381, b: &Fq381) -> (r: Fq381)
    ensures
        fq381_int(r) == fsub(q381(), fq381_int(*a), fq381_int(*b)),
{
    Fq381 { inner: a.inner - b.inner }
}

/// Relies on `ark_ff` multiplication on the BLS12-381 base field.
#[verifier::external_body]
pub fn fq381_mul(a: &Fq381, b: &Fq381) -> (r: Fq381)
    ensures
        fq381_int(r) == fmul(q381(), fq381_int(*a), fq381_int(*b)),
{
    Fq381 { inner: a.inner * b.inner }
}

/// Relies on `ark_ff` division on the BLS12-381 base field, which multiplies
/// by the inverse of the divisor; the quotient satisfies `r * b = a` in the
/// field.  Division by zero is left out: it panics there.
#[verifier::external_body]
pub fn fq381_div(a: &Fq381, b: &Fq381) -> (r: Fq381)
    requires
        fq381_int(*b) % q381() != 0,
    ensures
        fq381_int(r) == fdiv(q381(), fq381_int(*a), fq381_int(*b)),
        fq381_int(r) == (fq381_int(*a) * field_inv(q381(), fq381_int(*b) % q381())) % q381(),
        fmul(q381(), fq381_int(r), fq381_int(*b)) == fq381_int(*a) % q381(),
{
    Fq381 { inner: a.inner / b.inner }
}

/// Relies on `ark_ff::Zero::is_zero` on the BLS12-381 base field.
#[verifier::external_body]
pub fn fq381_is_zero(a: &Fq381) -> (r: bool)
    ensures
        r == (fq381_int(*a) % q381() == 0),
{
    ark_ff::Zero::is_zero(&a.inner)
}

/// Relies on `Clone` for the arkworks element (it is a plain copy).
#[verifier::external_body]
pub fn fq381_clone(a: &Fq381) -> (r: Fq381)
    ensures
        fq381_int(r) == fq381_int(*a),
{
    Fq381 { inner: a.inner }
}

/// Relies on `ark_ff` addition on the BLS12-381 scalar field.
#[verifier::external_body]
pub fn fr381_add(a: &Fr381, b: &Fr381) -> (r: Fr381)
    ensures
        fr381_int(r) == fadd(r381(), fr381_int(*a), fr381_int(*b)),
{
    Fr381 { inner: a.inner + b.inner }
}

/// Relies on `From<u64>` for the BLS12-381 scalar field: the element whose
/// residue is the given integer.
#[verifier::external_body]
pub fn fr381_from_u64(x: u64) -> (r: Fr381)
    ensures
        fr381_int(r) == x as int % r381(),
{
    Fr381 { inner: ark_bls12_381::Fr::from(x) }
}

} // verus!
