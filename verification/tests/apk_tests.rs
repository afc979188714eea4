use ark_ec::{AffineRepr, CurveGroup};
use ark_ff::{BigInteger, Field, One, PrimeField, Zero};
use ark_std::{test_rng, UniformRand};
use rand::Rng;

use apk_gadget::affine::{PlainPoint377, PlainPoint381};
use apk_gadget::apk::{keys_to_limbs, pack_bits_le, ApkCircuit, ApkCircuitEmulated};
use apk_gadget::emulated_r1cs::{
    ebool_value, efr_input, efr_to_bits_le, em_cs_is_satisfied, em_cs_new, em_cs_num_constraints,
};
use apk_gadget::fq_ops::{
    fq377_from_le_bytes, fq377_to_le_bytes, fq381_from_le_bytes, fq381_to_le_bytes, Fq377, Fq381,
};
use apk_gadget::native_r1cs::{native_cs_is_satisfied, native_cs_new};

fn fq377_of(x: ark_bls12_377::Fq) -> Fq377 {
    fq377_from_le_bytes(&x.into_bigint().to_bytes_le())
}

fn point377_of(p: ark_bls12_377::G1Affine) -> PlainPoint377 {
    PlainPoint377::new(fq377_of(p.x), fq377_of(p.y))
}

fn fq381_of(x: ark_bls12_381::Fq) -> Fq381 {
    fq381_from_le_bytes(&x.into_bigint().to_bytes_le())
}

fn point381_of(p: ark_bls12_381::G1Affine) -> PlainPoint381 {
    PlainPoint381::new(fq381_of(p.x), fq381_of(p.y))
}

/// Packs bits little-endian into the native constraint field (a BW6-761
/// scalar, i.e. a BLS12-377 base field element).
fn pack377(bits: &[bool]) -> ark_bls12_377::Fq {
    let mut acc = ark_bls12_377::Fq::zero();
    for b in bits.iter().rev() {
        acc.double_in_place();
        if *b {
            acc += ark_bls12_377::Fq::one();
        }
    }
    acc
}

#[test]
fn apk_native() {
    let rng = &mut test_rng();
    let n = 3;
    let keys: Vec<ark_bls12_377::G1Affine> =
        (0..n).map(|_| ark_bls12_377::G1Affine::rand(rng)).collect();
    let bits: Vec<bool> = (0..n).map(|_| rng.gen_bool(0.9)).collect();
    let seed = ark_bls12_377::G1Affine::rand(rng);

    let circuit = ApkCircuit::new(
        keys.iter().map(|k| point377_of(*k)).collect(),
        point377_of(seed),
        fq377_of(pack377(&bits)),
    );
    let cs = native_cs_new();
    let out = circuit.generate_constraints(&cs).unwrap().value();
    let mut expected = seed.into_group();
    for (k, b) in keys.iter().zip(bits.iter()) {
        if *b {
            expected += k;
        }
    }
    let expected = expected.into_affine();
    assert_eq!(fq377_to_le_bytes(&out.x), expected.x.into_bigint().to_bytes_le());
    assert_eq!(fq377_to_le_bytes(&out.y), expected.y.into_bigint().to_bytes_le());
    assert!(native_cs_is_satisfied(&cs));
}

#[test]
fn apk_foreign() {
    let rng = &mut test_rng();
    let n = 3;
    let keys: Vec<ark_bls12_381::G1Affine> =
        (0..n).map(|_| ark_bls12_381::G1Affine::rand(rng)).collect();
    let bits: Vec<bool> = (0..n).map(|_| rng.gen_bool(0.9)).collect();
    let seed = ark_bls12_381::G1Affine::rand(rng);

    let circuit = ApkCircuitEmulated::new(
        keys.iter().map(|k| point381_of(*k)).collect(),
        point381_of(seed),
        pack_bits_le(&bits),
    );
    let cs = em_cs_new();
    let out = circuit.generate_constraints(&cs).unwrap().value();
    let mut expected = seed.into_group();
    for (k, b) in keys.iter().zip(bits.iter()) {
        if *b {
            expected += k;
        }
    }
    let expected = expected.into_affine();
    assert_eq!(fq381_to_le_bytes(&out.x), expected.x.into_bigint().to_bytes_le());
    assert_eq!(fq381_to_le_bytes(&out.y), expected.y.into_bigint().to_bytes_le());
    assert!(em_cs_is_satisfied(&cs));
}

#[test]
fn apk_empty_selection() {
    // An all-clear selector yields exactly the seed.
    let rng = &mut test_rng();
    let n = 3;
    let keys: Vec<ark_bls12_381::G1Affine> =
        (0..n).map(|_| ark_bls12_381::G1Affine::rand(rng)).collect();
    let seed = ark_bls12_381::G1Affine::rand(rng);
    let circuit = ApkCircuitEmulated::new(
        keys.iter().map(|k| point381_of(*k)).collect(),
        point381_of(seed),
        pack_bits_le(&vec![false; n]),
    );
    let cs = em_cs_new();
    let out = circuit.generate_constraints(&cs).unwrap().value();
    assert_eq!(fq381_to_le_bytes(&out.x), seed.x.into_bigint().to_bytes_le());
    assert_eq!(fq381_to_le_bytes(&out.y), seed.y.into_bigint().to_bytes_le());
    assert!(em_cs_is_satisfied(&cs));
}

#[test]
fn test_bit_packing() {
    let rng = &mut test_rng();
    let n = 100;
    let bits: Vec<bool> = (0..n).map(|_| bool::rand(rng)).collect();

    let packed = pack_bits_le(&bits);
    let cs = em_cs_new();
    let packed_var = efr_input(&cs, &packed);
    let bit_vars = efr_to_bits_le(&packed_var);
    let bits_back: Vec<bool> = bit_vars.iter().take(n).map(|b| ebool_value(b)).collect();
    assert_eq!(bits, bits_back);
}

#[test]
fn test_bit_packing_full_capacity() {
    // Up to the field's bit capacity, packing then decoding is lossless.
    let rng = &mut test_rng();
    let n = 254;
    let bits: Vec<bool> = (0..n).map(|_| bool::rand(rng)).collect();
    let packed = pack_bits_le(&bits);
    let cs = em_cs_new();
    let packed_var = efr_input(&cs, &packed);
    let bit_vars = efr_to_bits_le(&packed_var);
    let bits_back: Vec<bool> = bit_vars.iter().take(n).map(|b| ebool_value(b)).collect();
    assert_eq!(bits, bits_back);
}

#[test]
fn test_pack_exact() {
    // An exact packed value: bits 1,0,1 little-endian are five.
    let packed = pack_bits_le(&vec![true, false, true]);
    let cs = em_cs_new();
    let var = efr_input(&cs, &packed);
    let bits = efr_to_bits_le(&var);
    assert!(ebool_value(&bits[0]));
    assert!(!ebool_value(&bits[1]));
    assert!(ebool_value(&bits[2]));
    for b in bits.iter().skip(3) {
        assert!(!ebool_value(b));
    }
}

#[test]
fn test_limbs_foreign() {
    let limbs = keys_to_limbs(&vec![point381_of(ark_bls12_381::G1Affine::rand(
        &mut test_rng(),
    ))]);
    println!(
        "bls12_381::G1Affine is represented with {} limbs in bls12_381::Fr",
        limbs.len()
    );
    // Two coordinates, each decomposed into at least two limbs.
    assert!(limbs.len() >= 4 && limbs.len() % 2 == 0);
}

#[test]
fn test_apk_shape_independent_of_selector() {
    // The circuit's constraint count must not depend on the selector's
    // value: the candidate sum is always formed and discarded branch-free.
    let rng = &mut test_rng();
    let n = 3;
    let keys: Vec<ark_bls12_381::G1Affine> =
        (0..n).map(|_| ark_bls12_381::G1Affine::rand(rng)).collect();
    let seed = ark_bls12_381::G1Affine::rand(rng);
    let plain: Vec<PlainPoint381> = keys.iter().map(|k| point381_of(*k)).collect();
    let plain2: Vec<PlainPoint381> = keys.iter().map(|k| point381_of(*k)).collect();

    let all_set = ApkCircuitEmulated::new(plain, point381_of(seed), pack_bits_le(&vec![true; n]));
    let cs_set = em_cs_new();
    all_set.generate_constraints(&cs_set).unwrap();

    let none_set =
        ApkCircuitEmulated::new(plain2, point381_of(seed), pack_bits_le(&vec![false; n]));
    let cs_clear = em_cs_new();
    none_set.generate_constraints(&cs_clear).unwrap();

    assert_eq!(em_cs_num_constraints(&cs_set), em_cs_num_constraints(&cs_clear));
}
