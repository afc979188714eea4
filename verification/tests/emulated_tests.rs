use ark_ec::CurveGroup;
use ark_ff::{BigInteger, PrimeField};
use ark_std::{test_rng, UniformRand};

use apk_gadget::affine::{NonZeroAffineVarEmulated, PlainPoint381};
use apk_gadget::emulated_r1cs::{em_cs_is_satisfied, em_cs_new, em_cs_num_constraints};
use apk_gadget::fq_ops::{fq381_from_le_bytes, fq381_to_le_bytes, Fq381};
use apk_gadget::sum_acc::SumAccumulatorEmulated;

fn fq381_of(x: ark_bls12_381::Fq) -> Fq381 {
    fq381_from_le_bytes(&x.into_bigint().to_bytes_le())
}

fn point_of(p: ark_bls12_381::G1Affine) -> PlainPoint381 {
    PlainPoint381::new(fq381_of(p.x), fq381_of(p.y))
}

fn assert_same_point(ours: &PlainPoint381, theirs: ark_bls12_381::G1Affine) {
    assert_eq!(fq381_to_le_bytes(&ours.x), theirs.x.into_bigint().to_bytes_le());
    assert_eq!(fq381_to_le_bytes(&ours.y), theirs.y.into_bigint().to_bytes_le());
}

#[test]
fn test_sum_emulated() {
    let rng = &mut test_rng();
    let cs = em_cs_new();
    let n = 10;
    let keys: Vec<ark_bls12_381::G1Affine> =
        (0..n).map(|_| ark_bls12_381::G1Affine::rand(rng)).collect();
    let before = em_cs_num_constraints(&cs);
    let mut key_vars: Vec<NonZeroAffineVarEmulated> =
        keys.iter().map(|k| NonZeroAffineVarEmulated::new_witness(&cs, &point_of(*k))).collect();
    println!("allocating {} emulated points: {:?}", n, em_cs_num_constraints(&cs) - before);
    let before = em_cs_num_constraints(&cs);
    let mut iter = key_vars.drain(..);
    let mut sum = iter.next().unwrap();
    for key in iter {
        sum = sum.add_unchecked(&key).unwrap();
    }
    println!("summing {} emulated points: {:?}", n, em_cs_num_constraints(&cs) - before);
    let expected = keys.iter().sum::<ark_bls12_381::G1Projective>().into_affine();
    assert_same_point(&sum.value(), expected);
    assert!(em_cs_is_satisfied(&cs));
}

#[test]
fn test_acc_emulated() {
    let rng = &mut test_rng();
    let cs = em_cs_new();
    let n = 10;
    let keys: Vec<ark_bls12_381::G1Affine> =
        (0..n).map(|_| ark_bls12_381::G1Affine::rand(rng)).collect();
    let before = em_cs_num_constraints(&cs);
    let mut key_vars: Vec<NonZeroAffineVarEmulated> =
        keys.iter().map(|k| NonZeroAffineVarEmulated::new_witness(&cs, &point_of(*k))).collect();
    println!("allocating {} emulated points: {:?}", n, em_cs_num_constraints(&cs) - before);
    let before = em_cs_num_constraints(&cs);
    let mut iter = key_vars.drain(..);
    let mut acc =
        SumAccumulatorEmulated::init(&cs, iter.next().unwrap(), iter.next().unwrap()).unwrap();
    for key in iter {
        acc = acc.add(key).unwrap();
    }
    let sum = acc.finalize();
    println!("summing {} emulated points: {:?}", n, em_cs_num_constraints(&cs) - before);
    let expected = keys.iter().sum::<ark_bls12_381::G1Projective>().into_affine();
    assert_same_point(&sum.value(), expected);
    assert!(em_cs_is_satisfied(&cs));
}

#[test]
fn test_regime_equivalence() {
    // The emulated accumulator, the emulated pairwise chain, and the plain
    // reference sum produce the same final coordinates for the same points,
    // even though the circuits differ internally.
    let rng = &mut test_rng();
    let n = 6;
    let keys: Vec<ark_bls12_381::G1Affine> =
        (0..n).map(|_| ark_bls12_381::G1Affine::rand(rng)).collect();
    let plain: Vec<PlainPoint381> = keys.iter().map(|k| point_of(*k)).collect();
    let reference = apk_gadget::affine::plain_sum_381(&plain).unwrap();

    let cs = em_cs_new();
    let mut vars: Vec<NonZeroAffineVarEmulated> =
        plain.iter().map(|p| NonZeroAffineVarEmulated::new_witness(&cs, p)).collect();
    let mut iter = vars.drain(..);
    let mut acc =
        SumAccumulatorEmulated::init(&cs, iter.next().unwrap(), iter.next().unwrap()).unwrap();
    for key in iter {
        acc = acc.add(key).unwrap();
    }
    let via_acc = acc.finalize().value();

    let cs2 = em_cs_new();
    let mut vars2: Vec<NonZeroAffineVarEmulated> =
        plain.iter().map(|p| NonZeroAffineVarEmulated::new_witness(&cs2, p)).collect();
    let mut iter2 = vars2.drain(..);
    let mut sum = iter2.next().unwrap();
    for key in iter2 {
        sum = sum.add_unchecked(&key).unwrap();
    }
    let via_chain = sum.value();

    assert_eq!(fq381_to_le_bytes(&via_acc.x), fq381_to_le_bytes(&reference.x));
    assert_eq!(fq381_to_le_bytes(&via_acc.y), fq381_to_le_bytes(&reference.y));
    assert_eq!(fq381_to_le_bytes(&via_chain.x), fq381_to_le_bytes(&reference.x));
    assert_eq!(fq381_to_le_bytes(&via_chain.y), fq381_to_le_bytes(&reference.y));
    assert!(em_cs_is_satisfied(&cs));
    assert!(em_cs_is_satisfied(&cs2));
}

#[test]
fn test_equal_x_fails_emulated() {
    // A shared x-coordinate must surface as a failure in the emulated
    // regime too, for `init` and for `add`.
    let rng = &mut test_rng();
    let cs = em_cs_new();
    let a = ark_bls12_381::G1Affine::rand(rng);
    let minus_a = -a;
    let p = NonZeroAffineVarEmulated::new_witness(&cs, &point_of(a));
    let q = NonZeroAffineVarEmulated::new_witness(&cs, &point_of(minus_a));
    assert!(matches!(
        SumAccumulatorEmulated::init(&cs, p, q),
        Err(apk_gadget::GadgetError::Arithmetic)
    ));
}

#[test]
fn test_deferred_reduction_saves_constraints() {
    // The accumulator's deferred-reduction step must be cheaper than the
    // generic chord addition, which reduces twice where the accumulator
    // reduces once.
    let rng = &mut test_rng();
    let n = 5;
    let keys: Vec<ark_bls12_381::G1Affine> =
        (0..n).map(|_| ark_bls12_381::G1Affine::rand(rng)).collect();
    let plain: Vec<PlainPoint381> = keys.iter().map(|k| point_of(*k)).collect();

    let cs_chain = em_cs_new();
    let mut vars: Vec<NonZeroAffineVarEmulated> =
        plain.iter().map(|p| NonZeroAffineVarEmulated::new_witness(&cs_chain, p)).collect();
    let after_alloc = em_cs_num_constraints(&cs_chain);
    let mut iter = vars.drain(..);
    let mut sum = iter.next().unwrap();
    for key in iter {
        sum = sum.add_unchecked(&key).unwrap();
    }
    let _ = sum;
    let chain_cost = em_cs_num_constraints(&cs_chain) - after_alloc;

    let cs_acc = em_cs_new();
    let mut vars: Vec<NonZeroAffineVarEmulated> =
        plain.iter().map(|p| NonZeroAffineVarEmulated::new_witness(&cs_acc, p)).collect();
    let after_alloc = em_cs_num_constraints(&cs_acc);
    let mut iter = vars.drain(..);
    let mut acc =
        SumAccumulatorEmulated::init(&cs_acc, iter.next().unwrap(), iter.next().unwrap()).unwrap();
    for key in iter {
        acc = acc.add(key).unwrap();
    }
    let _ = acc.finalize();
    let acc_cost = em_cs_num_constraints(&cs_acc) - after_alloc;

    assert!(acc_cost < chain_cost);
    assert!(em_cs_is_satisfied(&cs_chain));
    assert!(em_cs_is_satisfied(&cs_acc));
}
