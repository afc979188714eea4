use ark_ec::CurveGroup;
use ark_ff::{BigInteger, PrimeField};
use ark_std::{test_rng, UniformRand};

use apk_gadget::affine::{NonZeroAffineVar, PlainPoint377};
use apk_gadget::fq_ops::{fq377_from_le_bytes, fq377_to_le_bytes, Fq377};
use apk_gadget::native_r1cs::{native_cs_is_satisfied, native_cs_new, native_cs_num_constraints};
use apk_gadget::sum_acc::SumAccumulator;

fn fq377_of(x: ark_bls12_377::Fq) -> Fq377 {
    fq377_from_le_bytes(&x.into_bigint().to_bytes_le())
}

fn point_of(p: ark_bls12_377::G1Affine) -> PlainPoint377 {
    PlainPoint377::new(fq377_of(p.x), fq377_of(p.y))
}

fn assert_same_point(ours: &PlainPoint377, theirs: ark_bls12_377::G1Affine) {
    assert_eq!(fq377_to_le_bytes(&ours.x), theirs.x.into_bigint().to_bytes_le());
    assert_eq!(fq377_to_le_bytes(&ours.y), theirs.y.into_bigint().to_bytes_le());
}

#[test]
fn test_sum_native() {
    let rng = &mut test_rng();
    let cs = native_cs_new();
    let n = 10;
    let keys: Vec<ark_bls12_377::G1Affine> =
        (0..n).map(|_| ark_bls12_377::G1Affine::rand(rng)).collect();
    let before = native_cs_num_constraints(&cs);
    let mut key_vars: Vec<NonZeroAffineVar> =
        keys.iter().map(|k| NonZeroAffineVar::new_witness(&cs, &point_of(*k))).collect();
    println!("allocating {} native points: {:?}", n, native_cs_num_constraints(&cs) - before);
    let before = native_cs_num_constraints(&cs);
    let mut iter = key_vars.drain(..);
    let mut sum = iter.next().unwrap();
    for key in iter {
        sum = sum.add_unchecked(&key).unwrap();
    }
    println!("summing {} native points: {:?}", n, native_cs_num_constraints(&cs) - before);
    let expected = keys.iter().sum::<ark_bls12_377::G1Projective>().into_affine();
    assert_same_point(&sum.value(), expected);
    assert!(native_cs_is_satisfied(&cs));
}

#[test]
fn test_acc_native() {
    let rng = &mut test_rng();
    let cs = native_cs_new();
    let n = 10;
    let keys: Vec<ark_bls12_377::G1Affine> =
        (0..n).map(|_| ark_bls12_377::G1Affine::rand(rng)).collect();
    let before = native_cs_num_constraints(&cs);
    let mut key_vars: Vec<NonZeroAffineVar> =
        keys.iter().map(|k| NonZeroAffineVar::new_witness(&cs, &point_of(*k))).collect();
    println!("allocating {} native points: {:?}", n, native_cs_num_constraints(&cs) - before);
    let before = native_cs_num_constraints(&cs);
    let mut iter = key_vars.drain(..);
    let mut acc =
        SumAccumulator::init(iter.next().unwrap(), iter.next().unwrap()).unwrap();
    for key in iter {
        acc = acc.add(key).unwrap();
    }
    let sum = acc.finalize();
    println!("summing {} native points: {:?}", n, native_cs_num_constraints(&cs) - before);
    let expected = keys.iter().sum::<ark_bls12_377::G1Projective>().into_affine();
    assert_same_point(&sum.value(), expected);
    assert!(native_cs_is_satisfied(&cs));
}

#[test]
fn test_acc_matches_plain_reference_sum() {
    // The accumulator, run inside a constraint system, agrees with the
    // plain reference fold over the same ten points, and every constraint
    // is satisfied.
    let rng = &mut test_rng();
    let cs = native_cs_new();
    let n = 10;
    let keys: Vec<ark_bls12_377::G1Affine> =
        (0..n).map(|_| ark_bls12_377::G1Affine::rand(rng)).collect();
    let plain: Vec<PlainPoint377> = keys.iter().map(|k| point_of(*k)).collect();
    let reference = apk_gadget::affine::plain_sum_377(&plain).unwrap();
    let mut vars: Vec<NonZeroAffineVar> =
        plain.iter().map(|p| NonZeroAffineVar::new_witness(&cs, p)).collect();
    let mut iter = vars.drain(..);
    let mut acc =
        SumAccumulator::init(iter.next().unwrap(), iter.next().unwrap()).unwrap();
    for key in iter {
        acc = acc.add(key).unwrap();
    }
    let sum = acc.finalize().value();
    assert_eq!(fq377_to_le_bytes(&sum.x), fq377_to_le_bytes(&reference.x));
    assert_eq!(fq377_to_le_bytes(&sum.y), fq377_to_le_bytes(&reference.y));
    let expected = keys.iter().sum::<ark_bls12_377::G1Projective>().into_affine();
    assert_eq!(fq377_to_le_bytes(&reference.x), expected.x.into_bigint().to_bytes_le());
    assert_eq!(fq377_to_le_bytes(&reference.y), expected.y.into_bigint().to_bytes_le());
    assert!(native_cs_is_satisfied(&cs));
}

#[test]
fn test_plain_add_matches_group_law() {
    // The plain chord formula agrees with the curve's group law for points
    // with distinct x-coordinates.
    let rng = &mut test_rng();
    let a = ark_bls12_377::G1Affine::rand(rng);
    let b = ark_bls12_377::G1Affine::rand(rng);
    let ours = apk_gadget::affine::plain_add_377(&point_of(a), &point_of(b)).unwrap();
    let expected = (a + b).into_affine();
    assert_same_point(&ours, expected);
}

#[test]
fn test_acc_permutation_independent() {
    // The accumulated point does not depend on which two points seed the
    // accumulator: {A,B,C,D} in two different orders.
    let rng = &mut test_rng();
    let cs = native_cs_new();
    let pts: Vec<ark_bls12_377::G1Affine> =
        (0..4).map(|_| ark_bls12_377::G1Affine::rand(rng)).collect();
    let var = |i: usize| NonZeroAffineVar::new_witness(&cs, &point_of(pts[i]));
    let first = SumAccumulator::init(var(0), var(1))
        .unwrap()
        .add(var(2))
        .unwrap()
        .add(var(3))
        .unwrap()
        .finalize()
        .value();
    let second = SumAccumulator::init(var(2), var(3))
        .unwrap()
        .add(var(0))
        .unwrap()
        .add(var(1))
        .unwrap()
        .finalize()
        .value();
    assert_eq!(fq377_to_le_bytes(&first.x), fq377_to_le_bytes(&second.x));
    assert_eq!(fq377_to_le_bytes(&first.y), fq377_to_le_bytes(&second.y));
    assert!(native_cs_is_satisfied(&cs));
}

#[test]
fn test_equal_x_fails_native() {
    // Supplying two points with equal x-coordinates must fail with the
    // arithmetic error, never silently produce a point.
    let rng = &mut test_rng();
    let cs = native_cs_new();
    let a = ark_bls12_377::G1Affine::rand(rng);
    let minus_a = -a;
    let p = NonZeroAffineVar::new_witness(&cs, &point_of(a));
    let q = NonZeroAffineVar::new_witness(&cs, &point_of(minus_a));
    assert!(matches!(
        SumAccumulator::init(p, q),
        Err(apk_gadget::GadgetError::Arithmetic)
    ));
    let p2 = NonZeroAffineVar::new_witness(&cs, &point_of(a));
    let q2 = NonZeroAffineVar::new_witness(&cs, &point_of(minus_a));
    assert!(matches!(
        p2.add_unchecked(&q2),
        Err(apk_gadget::GadgetError::Arithmetic)
    ));
    assert!(matches!(
        apk_gadget::affine::plain_add_377(&point_of(a), &point_of(minus_a)),
        Err(apk_gadget::GadgetError::Arithmetic)
    ));
}
