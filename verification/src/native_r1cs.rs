//! Trusted circuit-variable layer for the native regime: BLS12-377
//! coordinates represented directly in the constraint field (the BW6-761
//! scalar field, which equals the BLS12-377 base field).
//!
//! Each type wraps the arkworks gadget; the verifier sees it as opaque.  A
//! constraint system handle can only be obtained from [`native_cs_new`],
//! which puts it in proving mode and never leaves it: every variable built
//! through these wrappers therefore carries an assigned value, and the
//! contracts speak of that value's residue, named by `nfp_int`.
use vstd::prelude::*;
use crate::fq_ops::{fq377_int, Fq377};
use crate::model::{bit_of, fadd, fdiv, field_inv, fmul, fsub, q377};

verus! {

/// Handle to a native constraint system (in proving mode, with assignments).
#[verifier::external_body]
pub struct NativeCs {
    inner: ark_relations::r1cs::ConstraintSystemRef<ark_bls12_377::Fq>,
}

/// A native circuit variable: one BLS12-377 base field element, represented
/// directly in the constraint field.
#[verifier::external_body]
pub struct NativeVar {
    inner: ark_r1cs_std::fields::fp::FpVar<ark_bls12_377::Fq>,
}

/// A native boolean wire.
#[verifier::external_body]
pub struct NativeBool {
    inner: ark_r1cs_std::boolean::Boolean<ark_bls12_377::Fq>,
}

/// The residue assigned to a native circuit variable.
pub uninterp spec fn nfp_int(v: NativeVar) -> int;

/// The value assigned to a native boolean wire.
pub uninterp spec fn nbool_val(b: NativeBool) -> bool;

/// Relies on `ark_relations::r1cs::ConstraintSystem::new_ref`: a fresh
/// constraint system in proving mode, recording assignments.
#[verifier::external_body]
pub fn native_cs_new() -> NativeCs {
    NativeCs { inner: ark_relations::r1cs::ConstraintSystem::new_ref() }
}

/// Relies on `ark_relations::r1cs::ConstraintSystemRef::is_satisfied`:
/// whether every recorded constraint holds of the recorded assignment.
#[verifier::external_body]
pub fn native_cs_is_satisfied(cs: &NativeCs) -> bool {
    cs.inner.is_satisfied().unwrap()
}

/// Relies on `ark_relations::r1cs::ConstraintSystemRef::num_constraints`.
#[verifier::external_body]
pub fn native_cs_num_constraints(cs: &NativeCs) -> usize {
    cs.inner.num_constraints()
}

/// Relies on `AllocVar::new_witness` for `FpVar`: allocates a private
/// witness carrying the given value.
#[verifier::external_body]
pub fn nfp_witness(cs: &NativeCs, v: &Fq377) -> (r: NativeVar)
    ensures
        nfp_int(r) == fq377_int(*v),
{
    NativeVar {
        inner: <ark_r1cs_std::fields::fp::FpVar<ark_bls12_377::Fq> as ark_r1cs_std::alloc::AllocVar<
            ark_bls12_377::Fq,
            ark_bls12_377::Fq,
        >>::new_witness(cs.inner.clone(), || Ok(v.inner)).unwrap(),
    }
}

/// Relies on `AllocVar::new_input` for `FpVar`: allocates a public input
/// carrying the given value.
#[verifier::external_body]
pub fn nfp_input(cs: &NativeCs, v: &Fq377) -> (r: NativeVar)
    ensures
        nfp_int(r) == fq377_int(*v),
{
    NativeVar {
        inner: <ark_r1cs_std::fields::fp::FpVar<ark_bls12_377::Fq> as ark_r1cs_std::alloc::AllocVar<
            ark_bls12_377::Fq,
            ark_bls12_377::Fq,
        >>::new_input(cs.inner.clone(), || Ok(v.inner)).unwrap(),
    }
}

/// Relies on `FpVar::constant`: a constant circuit value.
#[verifier::external_body]
pub fn nfp_constant(v: &Fq377) -> (r: NativeVar)
    ensures
        nfp_int(r) == fq377_int(*v),
{
    NativeVar { inner: ark_r1cs_std::fields::fp::FpVar::Constant(v.inner) }
}

/// Relies on `R1CSVar::value`: reads the value assigned to the variable.
#[verifier::external_body]
pub fn nfp_value(v: &NativeVar) -> (r: Fq377)
    ensures
        fq377_int(r) == nfp_int(*v),
{
    Fq377 { inner: ark_r1cs_std::R1CSVar::value(&v.inner).unwrap() }
}

/// Relies on `Add` for `FpVar`: the sum of the assigned values.
#[verifier::external_body]
pub fn nfp_add(a: &NativeVar, b: &NativeVar) -> (r: NativeVar)
    ensures
        nfp_int(r) == fadd(q377(), nfp_int(*a), nfp_int(*b)),
{
    NativeVar { inner: &a.inner + &b.inner }
}

/// Relies on `Sub` for `FpVar`: the difference of the assigned values.
#[verifier::external_body]
pub fn nfp_sub(a: &NativeVar, b: &NativeVar) -> (r: NativeVar)
    ensures
        nfp_int(r) == fsub(q377(), nfp_int(*a), nfp_int(*b)),
{
    NativeVar { inner: &a.inner - &b.inner }
}

/// Relies on `Mul` for `FpVar`: the product of the assigned values, with a
/// multiplication constraint.
#[verifier::external_body]
pub fn nfp_mul(a: &NativeVar, b: &NativeVar) -> (r: NativeVar)
    ensures
        nfp_int(r) == fmul(q377(), nfp_int(*a), nfp_int(*b)),
{
    NativeVar { inner: &a.inner * &b.inner }
}

/// Relies on `FieldVar::square` for `FpVar`.
#[verifier::external_body]
pub fn nfp_square(a: &NativeVar) -> (r: NativeVar)
    ensures
        nfp_int(r) == fmul(q377(), nfp_int(*a), nfp_int(*a)),
{
    NativeVar { inner: ark_r1cs_std::fields::FieldVar::square(&a.inner).unwrap() }
}

/// Relies on `FieldVar::mul_by_inverse_unchecked` for `FpVar`: allocates the
/// quotient as a witness `r` and enforces `r * d = n`; the witness value is
/// `n * inverse(d)`.  A zero divisor is left out: with one it panics on
/// constants and makes the enforced constraint unsatisfiable otherwise, so
/// callers test the divisor first.
#[verifier::external_body]
pub fn nfp_div_unchecked(n: &NativeVar, d: &NativeVar) -> (r: NativeVar)
    requires
        nfp_int(*d) % q377() != 0,
    ensures
        nfp_int(r) == fdiv(q377(), nfp_int(*n), nfp_int(*d)),
        nfp_int(r) == (nfp_int(*n) * field_inv(q377(), nfp_int(*d) % q377())) % q377(),
        fmul(q377(), nfp_int(r), nfp_int(*d)) == nfp_int(*n) % q377(),
{
    NativeVar {
        inner: ark_r1cs_std::fields::FieldVar::mul_by_inverse_unchecked(&n.inner, &d.inner).unwrap(),
    }
}

/// Relies on `Boolean::select`: the first variable where the condition wire
/// is set, the second where it is not, branch-free.
#[verifier::external_body]
pub fn nfp_select(c: &NativeBool, t: &NativeVar, f: &NativeVar) -> (r: NativeVar)
    ensures
        nfp_int(r) == if nbool_val(*c) {
            nfp_int(*t)
        } else {
            nfp_int(*f)
        },
{
    NativeVar { inner: c.inner.select(&t.inner, &f.inner).unwrap() }
}

/// Relies on `ToBitsGadget::to_bits_le` for `FpVar`: the little-endian bit
/// decomposition of the assigned value, one wire per bit of the 377-bit
/// modulus, constrained to recompose to the value and to lie below the
/// modulus.
#[verifier::external_body]
pub fn nfp_to_bits_le(v: &NativeVar) -> (r: Vec<NativeBool>)
    ensures
        r@.len() == 377,
        forall|i: int|
            0 <= i < 377 ==> #[trigger] nbool_val(r@[i]) == bit_of(
                nfp_int(*v) % q377(),
                i as nat,
            ),
{
    ark_r1cs_std::ToBitsGadget::to_bits_le(&v.inner)
        .unwrap()
        .into_iter()
        .map(|b| NativeBool { inner: b })
        .collect()
}

} // verus!
