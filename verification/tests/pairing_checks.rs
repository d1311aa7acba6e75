use ark_bls12_377::{Fq, Fq2, Fr, G1Affine, G1Projective, G2Affine, G2Projective};
use ark_ec::short_weierstrass::SWCurveConfig;
use ark_ec::{CurveGroup, Group};
use ark_ff::{BigInteger, Field, One, PrimeField, UniformRand};
use ark_std::test_rng;

use eip2539::{g1_add, g2_add, pairing, PrecompileError};

fn fq_word_bytes(f: Fq) -> Vec<u8> {
    let mut w = vec![0u8; 16];
    w.extend(f.into_bigint().to_bytes_be());
    w
}

fn g1_wire(p: G1Projective) -> Vec<u8> {
    let a = p.into_affine();
    if a.infinity {
        return vec![0u8; 128];
    }
    let mut v = fq_word_bytes(a.x);
    v.extend(fq_word_bytes(a.y));
    v
}

fn g2_wire(p: G2Projective) -> Vec<u8> {
    let a = p.into_affine();
    if a.infinity {
        return vec![0u8; 256];
    }
    let mut v = fq_word_bytes(a.x.c0);
    v.extend(fq_word_bytes(a.x.c1));
    v.extend(fq_word_bytes(a.y.c0));
    v.extend(fq_word_bytes(a.y.c1));
    v
}

fn concat(parts: &[&[u8]]) -> Vec<u8> {
    let mut v: Vec<u8> = Vec::new();
    for p in parts {
        v.extend_from_slice(p);
    }
    v
}

fn one_output() -> Vec<u8> {
    let mut v = vec![0u8; 32];
    v[31] = 1;
    v
}

fn g1_wire_not_in_subgroup() -> Vec<u8> {
    let mut rng = test_rng();
    loop {
        let x = Fq::rand(&mut rng);
        let y2 = x * x * x + Fq::one();
        if let Some(y) = y2.sqrt() {
            let p = G1Affine::new_unchecked(x, y);
            assert!(p.is_on_curve());
            assert!(!p.is_in_correct_subgroup_assuming_on_curve());
            return concat(&[&fq_word_bytes(x), &fq_word_bytes(y)]);
        }
    }
}

fn g2_wire_not_in_subgroup() -> Vec<u8> {
    let mut rng = test_rng();
    loop {
        let x = Fq2::rand(&mut rng);
        let y2 = x * x * x + ark_bls12_377::g2::Config::COEFF_B;
        if let Some(y) = y2.sqrt() {
            let p = G2Affine::new_unchecked(x, y);
            assert!(p.is_on_curve());
            assert!(!p.is_in_correct_subgroup_assuming_on_curve());
            return concat(&[
                &fq_word_bytes(x.c0),
                &fq_word_bytes(x.c1),
                &fq_word_bytes(y.c0),
                &fq_word_bytes(y.c1),
            ]);
        }
    }
}

#[test]
fn pairing_with_g1_infinity_is_one() {
    let g2 = G2Projective::generator();
    let input = concat(&[&vec![0u8; 128], &g2_wire(g2)]);
    assert_eq!(pairing(&input), Ok(one_output()));
}

#[test]
fn pairing_with_g2_infinity_is_one() {
    let g1 = G1Projective::generator();
    let input = concat(&[&g1_wire(g1), &vec![0u8; 256]]);
    assert_eq!(pairing(&input), Ok(one_output()));
}

#[test]
fn pairing_of_cancelling_pairs_is_one() {
    let g1 = G1Projective::generator();
    let g2 = G2Projective::generator();
    // e(g1, g2) * e(-g1, g2) == 1.
    let input = concat(&[&g1_wire(g1), &g2_wire(g2), &g1_wire(-g1), &g2_wire(g2)]);
    assert_eq!(pairing(&input), Ok(one_output()));
}

#[test]
fn pairing_of_zero_scalar_sum_is_one() {
    let g1 = G1Projective::generator();
    let g2 = G2Projective::generator();
    // Scalars (1, 6) and (2, -3): 1*6 + 2*(-3) == 0 mod r.
    let input = concat(&[
        &g1_wire(g1 * Fr::from(1u64)),
        &g2_wire(g2 * Fr::from(6u64)),
        &g1_wire(g1 * Fr::from(2u64)),
        &g2_wire(g2 * (-Fr::from(3u64))),
    ]);
    assert_eq!(pairing(&input), Ok(one_output()));
}

#[test]
fn pairing_of_random_pair_is_zero() {
    let mut rng = test_rng();
    let g1 = G1Projective::generator();
    let g2 = G2Projective::generator();
    let e1 = Fr::rand(&mut rng);
    let e2 = Fr::rand(&mut rng);
    let input = concat(&[&g1_wire(g1 * e1), &g2_wire(g2 * e2)]);
    assert_eq!(pairing(&input), Ok(vec![0u8; 32]));
}

#[test]
fn pairing_skips_infinity_pairs_in_the_product() {
    let g1 = G1Projective::generator();
    let g2 = G2Projective::generator();
    // The middle pair carries an infinity operand and contributes nothing.
    let input = concat(&[
        &g1_wire(g1),
        &g2_wire(g2),
        &vec![0u8; 128],
        &g2_wire(g2 * Fr::from(5u64)),
        &g1_wire(-g1),
        &g2_wire(g2),
    ]);
    assert_eq!(pairing(&input), Ok(one_output()));
}

#[test]
fn pairing_rejects_off_curve_g1() {
    let mut rng = test_rng();
    let x = Fq::rand(&mut rng);
    let y = Fq::rand(&mut rng);
    assert!(!G1Affine::new_unchecked(x, y).is_on_curve());
    let bad = concat(&[&fq_word_bytes(x), &fq_word_bytes(y)]);
    let input = concat(&[&bad, &g2_wire(G2Projective::generator())]);
    assert_eq!(pairing(&input), Err(PrecompileError::PointNotOnCurve));
}

#[test]
fn pairing_rejects_off_curve_g2() {
    let mut rng = test_rng();
    let x = Fq2::rand(&mut rng);
    let y = Fq2::rand(&mut rng);
    assert!(!G2Affine::new_unchecked(x, y).is_on_curve());
    let bad = concat(&[
        &fq_word_bytes(x.c0),
        &fq_word_bytes(x.c1),
        &fq_word_bytes(y.c0),
        &fq_word_bytes(y.c1),
    ]);
    let input = concat(&[&g1_wire(G1Projective::generator()), &bad]);
    assert_eq!(pairing(&input), Err(PrecompileError::PointNotOnCurve));
}

#[test]
fn pairing_rejects_wrong_lengths() {
    let g1 = G1Projective::generator();
    let g2 = G2Projective::generator();
    let valid = concat(&[&g1_wire(g1), &g2_wire(g2)]);
    for input in [Vec::new(), valid[..383].to_vec(), concat(&[&valid, &[1u8]])] {
        assert_eq!(pairing(&input), Err(PrecompileError::InvalidInputLength));
    }
}

#[test]
fn pairing_rejects_g1_outside_subgroup() {
    let g2 = G2Projective::generator();
    let foreign = g1_wire_not_in_subgroup();
    let input = concat(&[&foreign, &g2_wire(g2)]);
    assert_eq!(pairing(&input), Err(PrecompileError::IncorrectSubgroup));
}

#[test]
fn pairing_rejects_g2_outside_subgroup() {
    let g1 = G1Projective::generator();
    let foreign = g2_wire_not_in_subgroup();
    let input = concat(&[&g1_wire(g1), &foreign]);
    assert_eq!(pairing(&input), Err(PrecompileError::IncorrectSubgroup));
}

#[test]
fn group_ops_accept_points_outside_subgroup() {
    // The same operands the pairing rejects pass the other operations'
    // validation: subgroup membership is a pairing-only requirement.
    let foreign1 = g1_wire_not_in_subgroup();
    assert!(g1_add(&concat(&[&foreign1, &foreign1])).is_ok());
    let foreign2 = g2_wire_not_in_subgroup();
    assert!(g2_add(&concat(&[&foreign2, &foreign2])).is_ok());
}

#[test]
fn pairing_reports_first_violation_in_input_order() {
    let g1 = G1Projective::generator();
    let g2 = G2Projective::generator();
    let foreign = g1_wire_not_in_subgroup();
    // Two valid pairs, then a pair whose G1 side is outside the subgroup.
    let input = concat(&[
        &g1_wire(g1),
        &g2_wire(g2),
        &g1_wire(-g1),
        &g2_wire(g2),
        &foreign,
        &g2_wire(g2),
    ]);
    assert_eq!(pairing(&input), Err(PrecompileError::IncorrectSubgroup));
}
