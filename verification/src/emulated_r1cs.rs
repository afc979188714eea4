//! Trusted circuit-variable layer for the emulated regime: BLS12-381 base
//! field coordinates represented by limbs inside the BLS12-381 scalar field.
//!
//! As in the native layer, a constraint system handle comes only from
//! [`em_cs_new`] and stays in proving mode, so every variable carries an
//! assigned value; `efp_int` names the foreign-field residue a variable
//! stands for.  The emulated extras are the non-reducing product, the sum of
//! unreduced products, the single explicit reduction, and the equality
//! assertion the deferred-reduction update is checked with.
use vstd::prelude::*;
use crate::fq_ops::{fq381_int, fr381_int, Fq381, Fr381};
use crate::model::{bit_of, fadd, fdiv, field_inv, fmul, fsub, q381, r381};

verus! {

/// Handle to an emulated-regime constraint system (proving mode).
#[verifier::external_body]
pub struct EmCs {
    inner: ark_relations::r1cs::ConstraintSystemRef<ark_bls12_381::Fr>,
}

/// An emulated circuit variable: one BLS12-381 base field element,
/// represented by limbs in the scalar field.
#[verifier::external_body]
pub struct EmVar {
    inner: ark_r1cs_std::fields::nonnative::NonNativeFieldVar<ark_bls12_381::Fq, ark_bls12_381::Fr>,
}

/// The unreduced result of an emulated multiplication, which can still be
/// added before the one deferred reduction.
#[verifier::external_body]
pub struct EmMulResult {
    inner: ark_r1cs_std::fields::nonnative::NonNativeFieldMulResultVar<
        ark_bls12_381::Fq,
        ark_bls12_381::Fr,
    >,
}

/// A scalar-field circuit variable of the emulated regime (the packed
/// selector lives here).
#[verifier::external_body]
pub struct EmFrVar {
    inner: ark_r1cs_std::fields::fp::FpVar<ark_bls12_381::Fr>,
}

/// A boolean wire of the emulated regime.
#[verifier::external_body]
pub struct EmBool {
    inner: ark_r1cs_std::boolean::Boolean<ark_bls12_381::Fr>,
}

/// The foreign-field residue assigned to an emulated variable.
pub uninterp spec fn efp_int(v: EmVar) -> int;

/// The foreign-field residue an unreduced product stands for.
pub uninterp spec fn emr_int(v: EmMulResult) -> int;

/// The scalar-field residue assigned to a scalar variable.
pub uninterp spec fn efr_int(v: EmFrVar) -> int;

/// The value assigned to a boolean wire.
pub uninterp spec fn ebool_val(b: EmBool) -> bool;

/// The limb decomposition (constraint-optimized) of a BLS12-381 base field
/// element in the scalar field, as `get_limbs_representations` computes it:
/// a function of the element alone.
pub uninterp spec fn limbs381(a: Fq381) -> Seq<int>;

/// Relies on `ark_relations::r1cs::ConstraintSystem::new_ref`: a fresh
/// constraint system in proving mode, recording assignments.
#[verifier::external_body]
pub fn em_cs_new() -> EmCs {
    EmCs { inner: ark_relations::r1cs::ConstraintSystem::new_ref() }
}

/// Relies on `Clone` for the reference-counted handle: both handles name
/// the same constraint system.
#[verifier::external_body]
pub fn em_cs_clone(cs: &EmCs) -> EmCs {
    EmCs { inner: cs.inner.clone() }
}

/// Relies on `ark_relations::r1cs::ConstraintSystemRef::is_satisfied`.
#[verifier::external_body]
pub fn em_cs_is_satisfied(cs: &EmCs) -> bool {
    cs.inner.is_satisfied().unwrap()
}

/// Relies on `ark_relations::r1cs::ConstraintSystemRef::num_constraints`.
#[verifier::external_body]
pub fn em_cs_num_constraints(cs: &EmCs) -> usize {
    cs.inner.num_constraints()
}

/// Relies on `AllocVar::new_witness` for `NonNativeFieldVar`.
#[verifier::external_body]
pub fn efp_witness(cs: &EmCs, v: &Fq381) -> (r: EmVar)
    ensures
        efp_int(r) == fq381_int(*v),
{
    EmVar {
        inner: <ark_r1cs_std::fields::nonnative::NonNativeFieldVar<
            ark_bls12_381::Fq,
            ark_bls12_381::Fr,
        > as ark_r1cs_std::alloc::AllocVar<ark_bls12_381::Fq, ark_bls12_381::Fr>>::new_witness(
            cs.inner.clone(),
            || Ok(v.inner),
        ).unwrap(),
    }
}

/// Relies on `AllocVar::new_input` for `NonNativeFieldVar`.
#[verifier::external_body]
pub fn efp_input(cs: &EmCs, v: &Fq381) -> (r: EmVar)
    ensures
        efp_int(r) == fq381_int(*v),
{
    EmVar {
        inner: <ark_r1cs_std::fields::nonnative::NonNativeFieldVar<
            ark_bls12_381::Fq,
            ark_bls12_381::Fr,
        > as ark_r1cs_std::alloc::AllocVar<ark_bls12_381::Fq, ark_bls12_381::Fr>>::new_input(
            cs.inner.clone(),
            || Ok(v.inner),
        ).unwrap(),
    }
}

/// Relies on `NonNativeFieldVar::Constant`: a constant circuit value.
#[verifier::external_body]
pub fn efp_constant(v: &Fq381) -> (r: EmVar)
    ensures
        efp_int(r) == fq381_int(*v),
{
    EmVar { inner: ark_r1cs_std::fields::nonnative::NonNativeFieldVar::Constant(v.inner) }
}

/// Relies on `R1CSVar::value`: the foreign-field value assigned.
#[verifier::external_body]
pub fn efp_value(v: &EmVar) -> (r: Fq381)
    ensures
        fq381_int(r) == efp_int(*v),
{
    Fq381 { inner: ark_r1cs_std::R1CSVar::value(&v.inner).unwrap() }
}

/// Relies on `Sub` for `NonNativeFieldVar`.
#[verifier::external_body]
pub fn efp_sub(a: &EmVar, b: &EmVar) -> (r: EmVar)
    ensures
        efp_int(r) == fsub(q381(), efp_int(*a), efp_int(*b)),
{
    EmVar { inner: &a.inner - &b.inner }
}

/// Relies on `Mul` for `NonNativeFieldVar`: a reduced product.
#[verifier::external_body]
pub fn efp_mul(a: &EmVar, b: &EmVar) -> (r: EmVar)
    ensures
        efp_int(r) == fmul(q381(), efp_int(*a), efp_int(*b)),
{
    EmVar { inner: &a.inner * &b.inner }
}

/// Relies on `FieldVar::square` for `NonNativeFieldVar`: a reduced square.
#[verifier::external_body]
pub fn efp_square(a: &EmVar) -> (r: EmVar)
    ensures
        efp_int(r) == fmul(q381(), efp_int(*a), efp_int(*a)),
{
    EmVar { inner: ark_r1cs_std::fields::FieldVar::square(&a.inner).unwrap() }
}

/// Relies on `FieldVar::mul_by_inverse_unchecked` for `NonNativeFieldVar`:
/// allocates the quotient as a witness `r` and enforces `r * d = n`; the
/// witness value is `n * inverse(d)`.  A zero divisor is left out: with one
/// it panics on constants and makes the enforced constraint unsatisfiable
/// otherwise, so callers test the divisor first.
#[verifier::external_body]
pub fn efp_div_unchecked(n: &EmVar, d: &EmVar) -> (r: EmVar)
    requires
        efp_int(*d) % q381() != 0,
    ensures
        efp_int(r) == fdiv(q381(), efp_int(*n), efp_int(*d)),
        efp_int(r) == (efp_int(*n) * field_inv(q381(), efp_int(*d) % q381())) % q381(),
        fmul(q381(), efp_int(r), efp_int(*d)) == efp_int(*n) % q381(),
{
    EmVar {
        inner: ark_r1cs_std::fields::FieldVar::mul_by_inverse_unchecked(&n.inner, &d.inner).unwrap(),
    }
}

/// Relies on `NonNativeFieldVar::mul_without_reduce`: the product without
/// the final limb reduction; the value it stands for is still the field
/// product.
#[verifier::external_body]
pub fn efp_mul_without_reduce(a: &EmVar, b: &EmVar) -> (r: EmMulResult)
    ensures
        emr_int(r) == fmul(q381(), efp_int(*a), efp_int(*b)),
{
    EmMulResult { inner: a.inner.mul_without_reduce(&b.inner).unwrap() }
}

/// Relies on `Add` for `NonNativeFieldMulResultVar`: unreduced products add
/// limb-wise; the value is the field sum.
#[verifier::external_body]
pub fn emr_add(a: &EmMulResult, b: &EmMulResult) -> (r: EmMulResult)
    ensures
        emr_int(r) == fadd(q381(), emr_int(*a), emr_int(*b)),
{
    EmMulResult { inner: &a.inner + &b.inner }
}

/// Relies on `NonNativeFieldMulResultVar::reduce`: the one deferred
/// reduction, collapsing limb growth; the value is unchanged.
#[verifier::external_body]
pub fn emr_reduce(v: &EmMulResult) -> (r: EmVar)
    ensures
        efp_int(r) == emr_int(*v) % q381(),
{
    EmVar { inner: v.inner.reduce().unwrap() }
}

/// Relies on `EqGadget::enforce_equal` for `NonNativeFieldVar`: records the
/// equality constraint.  Equal assigned values are required, so the
/// constraint is satisfied by the recorded assignment and the call cannot
/// fail.
#[verifier::external_body]
pub fn efp_enforce_equal(a: &EmVar, b: &EmVar)
    requires
        efp_int(*a) % q381() == efp_int(*b) % q381(),
{
    ark_r1cs_std::eq::EqGadget::enforce_equal(&a.inner, &b.inner).unwrap()
}

/// Relies on `FieldVar::zero` for `NonNativeFieldVar`.
#[verifier::external_body]
pub fn efp_zero() -> (r: EmVar)
    ensures
        efp_int(r) % q381() == 0,
{
    EmVar { inner: ark_r1cs_std::fields::FieldVar::zero() }
}

/// Relies on `Boolean::select` for `NonNativeFieldVar`: branch-free choice.
#[verifier::external_body]
pub fn efp_select(c: &EmBool, t: &EmVar, f: &EmVar) -> (r: EmVar)
    ensures
        efp_int(r) == if ebool_val(*c) {
            efp_int(*t)
        } else {
            efp_int(*f)
        },
{
    EmVar { inner: c.inner.select(&t.inner, &f.inner).unwrap() }
}

/// Relies on `AllocVar::new_input` for `FpVar` over the scalar field.
#[verifier::external_body]
pub fn efr_input(cs: &EmCs, v: &Fr381) -> (r: EmFrVar)
    ensures
        efr_int(r) == fr381_int(*v),
{
    EmFrVar {
        inner: <ark_r1cs_std::fields::fp::FpVar<ark_bls12_381::Fr> as ark_r1cs_std::alloc::AllocVar<
            ark_bls12_381::Fr,
            ark_bls12_381::Fr,
        >>::new_input(cs.inner.clone(), || Ok(v.inner)).unwrap(),
    }
}

/// Relies on `ToBitsGadget::to_bits_le` for `FpVar` over the scalar field:
/// the little-endian bits of the assigned value, one wire per bit of the
/// 255-bit modulus.
#[verifier::external_body]
pub fn efr_to_bits_le(v: &EmFrVar) -> (r: Vec<EmBool>)
    ensures
        r@.len() == 255,
        forall|i: int|
            0 <= i < 255 ==> #[trigger] ebool_val(r@[i]) == bit_of(
                efr_int(*v) % r381(),
                i as nat,
            ),
{
    ark_r1cs_std::ToBitsGadget::to_bits_le(&v.inner)
        .unwrap()
        .into_iter()
        .map(|b| EmBool { inner: b })
        .collect()
}

/// Relies on `R1CSVar::value` for `Boolean` over the scalar field.
#[verifier::external_body]
pub fn ebool_value(b: &EmBool) -> (r: bool)
    ensures
        r == ebool_val(*b),
{
    ark_r1cs_std::R1CSVar::value(&b.inner).unwrap()
}

/// Relies on `AllocatedNonNativeFieldVar::get_limbs_representations` with
/// the constraint-optimized parameters: the deterministic limb decomposition
/// of a foreign field element, used to build the public-input sequence.
#[verifier::external_body]
pub fn fq381_limbs(c: &Fq381) -> (r: Vec<Fr381>)
    ensures
        r@.len() == limbs381(*c).len(),
        forall|i: int| 0 <= i < r@.len() ==> fr381_int(#[trigger] r@[i]) == limbs381(*c)[i],
{
    ark_r1cs_std::fields::nonnative::AllocatedNonNativeFieldVar::<
        ark_bls12_381::Fq,
        ark_bls12_381::Fr,
    >::get_limbs_representations(
        &c.inner,
        ark_r1cs_std::fields::nonnative::params::OptimizationType::Constraints,
    )
        .unwrap()
        .into_iter()
        .map(|l| Fr381 { inner: l })
        .collect()
}

} // verus!
