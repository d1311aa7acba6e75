use ark_bls12_377::{Fq, Fr, G1Affine, G1Projective, G2Projective};
use ark_ec::{AffineRepr, CurveGroup, Group};
use ark_ff::{BigInteger, PrimeField, UniformRand};
use ark_std::test_rng;

use eip2539::{g1_add, g1_mul, g1_multiexp, g2_add, g2_mul, g2_multiexp, PrecompileError};

const MODULUS_PLUS_ONE_HEX: &str =
    "01ae3a4617c510eac63b05c06ca1493b1a22d9f300f5138f1ef3622fba094800170b5d44300000008508c00000000002";

fn fq_word_bytes(f: Fq) -> Vec<u8> {
    let mut w = vec![0u8; 16];
    w.extend(f.into_bigint().to_bytes_be());
    w
}

fn g1_wire(p: G1Projective) -> Vec<u8> {
    let a = p.into_affine();
    if a.infinity {
        return vec![0u8; 128];
    }
    let mut v = fq_word_bytes(a.x);
    v.extend(fq_word_bytes(a.y));
    v
}

fn g2_wire(p: G2Projective) -> Vec<u8> {
    let a = p.into_affine();
    if a.infinity {
        return vec![0u8; 256];
    }
    let mut v = fq_word_bytes(a.x.c0);
    v.extend(fq_word_bytes(a.x.c1));
    v.extend(fq_word_bytes(a.y.c0));
    v.extend(fq_word_bytes(a.y.c1));
    v
}

fn scalar_bytes(k: u64) -> Vec<u8> {
    let mut s = vec![0u8; 32];
    s[24..32].copy_from_slice(&k.to_be_bytes());
    s
}

fn concat(parts: &[&[u8]]) -> Vec<u8> {
    let mut v: Vec<u8> = Vec::new();
    for p in parts {
        v.extend_from_slice(p);
    }
    v
}

fn rand_g1_off_curve() -> Vec<u8> {
    let mut rng = test_rng();
    let x = Fq::rand(&mut rng);
    let y = Fq::rand(&mut rng);
    let p = G1Affine::new_unchecked(x, y);
    assert!(!p.is_on_curve());
    concat(&[&fq_word_bytes(x), &fq_word_bytes(y)])
}

#[test]
fn g1_add_generator_to_itself() {
    let g = G1Projective::generator();
    let input = concat(&[&g1_wire(g), &g1_wire(g)]);
    let out = g1_add(&input).expect("two valid operands");
    assert_eq!(out, g1_wire(g + g));
    assert_ne!(out, g1_wire(g));
}

#[test]
fn g1_add_commutes() {
    let g = G1Projective::generator();
    let a = g * Fr::from(3u64);
    let b = g * Fr::from(5u64);
    let ab = g1_add(&concat(&[&g1_wire(a), &g1_wire(b)])).expect("valid");
    let ba = g1_add(&concat(&[&g1_wire(b), &g1_wire(a)])).expect("valid");
    assert_eq!(ab, ba);
    assert_eq!(ab, g1_wire(a + b));
}

#[test]
fn g1_add_associates() {
    let g = G1Projective::generator();
    let a = g1_wire(g * Fr::from(2u64));
    let b = g1_wire(g * Fr::from(9u64));
    let c = g1_wire(g * Fr::from(11u64));
    let ab = g1_add(&concat(&[&a, &b])).expect("valid");
    let ab_c = g1_add(&concat(&[&ab, &c])).expect("valid");
    let bc = g1_add(&concat(&[&b, &c])).expect("valid");
    let a_bc = g1_add(&concat(&[&a, &bc])).expect("valid");
    assert_eq!(ab_c, a_bc);
}

#[test]
fn g1_add_with_infinity_returns_operand() {
    let g = G1Projective::generator();
    let inf = vec![0u8; 128];
    let out = g1_add(&concat(&[&inf, &g1_wire(g)])).expect("valid");
    assert_eq!(out, g1_wire(g));
    let out = g1_add(&concat(&[&g1_wire(g), &inf])).expect("valid");
    assert_eq!(out, g1_wire(g));
}

#[test]
fn g1_mul_by_zero_gives_infinity() {
    let g = G1Projective::generator();
    let out = g1_mul(&concat(&[&g1_wire(g), &scalar_bytes(0)])).expect("valid");
    assert_eq!(out, vec![0u8; 128]);
}

#[test]
fn g1_mul_by_one_gives_operand() {
    let g = G1Projective::generator();
    let out = g1_mul(&concat(&[&g1_wire(g), &scalar_bytes(1)])).expect("valid");
    assert_eq!(out, g1_wire(g));
}

#[test]
fn g1_mul_matches_group_arithmetic() {
    let g = G1Projective::generator();
    let out = g1_mul(&concat(&[&g1_wire(g), &scalar_bytes(7)])).expect("valid");
    assert_eq!(out, g1_wire(g * Fr::from(7u64)));
    assert_ne!(out, g1_wire(g));
}

#[test]
fn g1_multiexp_single_pair_equals_mul() {
    let g = G1Projective::generator();
    let input = concat(&[&g1_wire(g), &scalar_bytes(13)]);
    assert_eq!(g1_multiexp(&input), g1_mul(&input));
}

#[test]
fn g1_multiexp_accumulates() {
    let g = G1Projective::generator();
    let a = g * Fr::from(4u64);
    let b = g * Fr::from(6u64);
    let input = concat(&[&g1_wire(a), &scalar_bytes(3), &g1_wire(b), &scalar_bytes(5)]);
    let out = g1_multiexp(&input).expect("valid");
    assert_eq!(out, g1_wire(a * Fr::from(3u64) + b * Fr::from(5u64)));
}

#[test]
fn g1_ops_reject_wrong_lengths() {
    let g = G1Projective::generator();
    let add_input = concat(&[&g1_wire(g), &g1_wire(g)]);
    let mul_input = concat(&[&g1_wire(g), &scalar_bytes(2)]);
    for input in [Vec::new(), add_input[..255].to_vec(), concat(&[&add_input, &[1u8]])] {
        assert_eq!(g1_add(&input), Err(PrecompileError::InvalidInputLength));
    }
    for input in [Vec::new(), mul_input[..159].to_vec(), concat(&[&mul_input, &[1u8]])] {
        assert_eq!(g1_mul(&input), Err(PrecompileError::InvalidInputLength));
        assert_eq!(g1_multiexp(&input), Err(PrecompileError::InvalidInputLength));
    }
}

#[test]
fn g1_ops_reject_nonzero_padding() {
    let g = G1Projective::generator();
    let mut input = concat(&[&g1_wire(g), &g1_wire(g)]);
    input[0] = 1;
    assert_eq!(g1_add(&input), Err(PrecompileError::InvalidFieldEncoding));
}

#[test]
fn g1_ops_reject_large_field_element() {
    let too_big = hex::decode(MODULUS_PLUS_ONE_HEX).expect("valid hex");
    let mut x_word = vec![0u8; 16];
    x_word.extend(&too_big);
    let y_word = vec![0u8; 64];
    // A second, valid operand after the bad one.
    let g = G1Projective::generator();
    let input = concat(&[&x_word, &y_word, &g1_wire(g)]);
    assert_eq!(g1_add(&input), Err(PrecompileError::InvalidFieldEncoding));
}

#[test]
fn g1_ops_reject_off_curve_points() {
    let g = G1Projective::generator();
    let bad = rand_g1_off_curve();
    let input = concat(&[&g1_wire(g), &bad]);
    assert_eq!(g1_add(&input), Err(PrecompileError::PointNotOnCurve));
    let input = concat(&[&bad, &scalar_bytes(1)]);
    assert_eq!(g1_mul(&input), Err(PrecompileError::PointNotOnCurve));
    assert_eq!(g1_multiexp(&input), Err(PrecompileError::PointNotOnCurve));
}

#[test]
fn g1_multiexp_reports_error_of_first_bad_pair() {
    let g = G1Projective::generator();
    let too_big = hex::decode(MODULUS_PLUS_ONE_HEX).expect("valid hex");
    let mut bad_word = vec![0u8; 16];
    bad_word.extend(&too_big);
    let bad_operand = concat(&[&bad_word, &vec![0u8; 64]]);
    // A valid pair first: the bad field element of the second pair is the
    // first violation in input order.
    let input = concat(&[&g1_wire(g), &scalar_bytes(2), &bad_operand, &scalar_bytes(0)]);
    assert_eq!(g1_multiexp(&input), Err(PrecompileError::InvalidFieldEncoding));
    // An off-curve pair before a bad-encoding pair: the scan stops at the
    // off-curve point.
    let off = rand_g1_off_curve();
    let input = concat(&[&off, &scalar_bytes(1), &bad_operand, &scalar_bytes(0)]);
    assert_eq!(g1_multiexp(&input), Err(PrecompileError::PointNotOnCurve));
}

#[test]
fn g2_add_generator_to_itself() {
    let g = G2Projective::generator();
    let input = concat(&[&g2_wire(g), &g2_wire(g)]);
    let out = g2_add(&input).expect("two valid operands");
    assert_eq!(out, g2_wire(g + g));
    assert_ne!(out, g2_wire(g));
}

#[test]
fn g2_add_commutes() {
    let g = G2Projective::generator();
    let a = g * Fr::from(3u64);
    let b = g * Fr::from(8u64);
    let ab = g2_add(&concat(&[&g2_wire(a), &g2_wire(b)])).expect("valid");
    let ba = g2_add(&concat(&[&g2_wire(b), &g2_wire(a)])).expect("valid");
    assert_eq!(ab, ba);
    assert_eq!(ab, g2_wire(a + b));
}

#[test]
fn g2_mul_by_zero_gives_infinity() {
    let g = G2Projective::generator();
    let out = g2_mul(&concat(&[&g2_wire(g), &scalar_bytes(0)])).expect("valid");
    assert_eq!(out, vec![0u8; 256]);
}

#[test]
fn g2_mul_by_one_gives_operand() {
    let g = G2Projective::generator();
    let out = g2_mul(&concat(&[&g2_wire(g), &scalar_bytes(1)])).expect("valid");
    assert_eq!(out, g2_wire(g));
}

#[test]
fn g2_mul_matches_group_arithmetic() {
    let g = G2Projective::generator();
    let out = g2_mul(&concat(&[&g2_wire(g), &scalar_bytes(9)])).expect("valid");
    assert_eq!(out, g2_wire(g * Fr::from(9u64)));
}

#[test]
fn g2_multiexp_single_pair_equals_mul() {
    let g = G2Projective::generator();
    let input = concat(&[&g2_wire(g), &scalar_bytes(21)]);
    assert_eq!(g2_multiexp(&input), g2_mul(&input));
}

#[test]
fn g2_multiexp_accumulates() {
    let g = G2Projective::generator();
    let a = g * Fr::from(2u64);
    let b = g * Fr::from(7u64);
    let input = concat(&[&g2_wire(a), &scalar_bytes(10), &g2_wire(b), &scalar_bytes(4)]);
    let out = g2_multiexp(&input).expect("valid");
    assert_eq!(out, g2_wire(a * Fr::from(10u64) + b * Fr::from(4u64)));
}

#[test]
fn g2_ops_reject_wrong_lengths() {
    let g = G2Projective::generator();
    let add_input = concat(&[&g2_wire(g), &g2_wire(g)]);
    for input in [Vec::new(), add_input[..511].to_vec(), concat(&[&add_input, &[1u8]])] {
        assert_eq!(g2_add(&input), Err(PrecompileError::InvalidInputLength));
        assert_eq!(g2_mul(&input), Err(PrecompileError::InvalidInputLength));
        assert_eq!(g2_multiexp(&input), Err(PrecompileError::InvalidInputLength));
    }
}

#[test]
fn g2_ops_reject_off_curve_points() {
    let mut rng = test_rng();
    let x = ark_bls12_377::Fq2::rand(&mut rng);
    let y = ark_bls12_377::Fq2::rand(&mut rng);
    let p = ark_bls12_377::G2Affine::new_unchecked(x, y);
    assert!(!p.is_on_curve());
    let bad = concat(&[
        &fq_word_bytes(x.c0),
        &fq_word_bytes(x.c1),
        &fq_word_bytes(y.c0),
        &fq_word_bytes(y.c1),
    ]);
    let input = concat(&[&bad, &scalar_bytes(1)]);
    assert_eq!(g2_mul(&input), Err(PrecompileError::PointNotOnCurve));
    assert_eq!(g2_multiexp(&input), Err(PrecompileError::PointNotOnCurve));
    let g = G2Projective::generator();
    let input = concat(&[&g2_wire(g), &bad]);
    assert_eq!(g2_add(&input), Err(PrecompileError::PointNotOnCurve));
}
