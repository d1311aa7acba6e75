use ark_bls12_377::{Fq, G1Projective, G2Projective};
use ark_ec::{CurveGroup, Group};
use ark_ff::{BigInteger, PrimeField};

use eip2539::field::{decode_fq, decode_fr, encode_fq, encode_fr};
use eip2539::{decode_g1, decode_g2, encode_g1, encode_g2, G1Point, G2Point, PrecompileError};

const MODULUS_HEX: &str =
    "01ae3a4617c510eac63b05c06ca1493b1a22d9f300f5138f1ef3622fba094800170b5d44300000008508c00000000001";

fn fq_word_bytes(f: Fq) -> Vec<u8> {
    let mut w = vec![0u8; 16];
    w.extend(f.into_bigint().to_bytes_be());
    w
}

fn g1_wire(p: G1Projective) -> Vec<u8> {
    let a = p.into_affine();
    if a.infinity {
        return vec![0u8; 128];
    }
    let mut v = fq_word_bytes(a.x);
    v.extend(fq_word_bytes(a.y));
    v
}

fn g2_wire(p: G2Projective) -> Vec<u8> {
    let a = p.into_affine();
    if a.infinity {
        return vec![0u8; 256];
    }
    let mut v = fq_word_bytes(a.x.c0);
    v.extend(fq_word_bytes(a.x.c1));
    v.extend(fq_word_bytes(a.y.c0));
    v.extend(fq_word_bytes(a.y.c1));
    v
}

#[test]
fn decode_fq_accepts_values_below_modulus() {
    let mut word = vec![0u8; 64];
    word[63] = 1;
    let f = decode_fq(&word).expect("1 is a valid field element");
    assert_eq!(f.bytes.len(), 48);
    assert_eq!(f.bytes[47], 1);
    assert_eq!(encode_fq(&f), word);

    // The largest canonical value: modulus - 1.
    let mut modulus = hex::decode(MODULUS_HEX).expect("valid hex");
    let last: usize = modulus.len() - 1;
    modulus[last] -= 1;
    let mut word = vec![0u8; 16];
    word.extend(&modulus);
    let f = decode_fq(&word).expect("modulus - 1 is a valid field element");
    assert_eq!(encode_fq(&f), word);
}

#[test]
fn decode_fq_rejects_modulus_and_above() {
    let modulus = hex::decode(MODULUS_HEX).expect("valid hex");
    let mut word = vec![0u8; 16];
    word.extend(&modulus);
    assert_eq!(decode_fq(&word), Err(PrecompileError::InvalidFieldEncoding));

    let mut word = vec![0u8; 16];
    word.extend(vec![0xffu8; 48]);
    assert_eq!(decode_fq(&word), Err(PrecompileError::InvalidFieldEncoding));
}

#[test]
fn decode_fq_rejects_nonzero_padding_with_small_value() {
    // Every value byte far below the modulus, but one padding byte set.
    for pad_index in 0..16 {
        let mut word = vec![0u8; 64];
        word[63] = 1;
        word[pad_index] = 1;
        assert_eq!(decode_fq(&word), Err(PrecompileError::InvalidFieldEncoding));
    }
}

#[test]
fn decode_fq2_round_trip() {
    let g = G2Projective::generator().into_affine();
    let block: Vec<u8> = fq_word_bytes(g.x.c0)
        .into_iter()
        .chain(fq_word_bytes(g.x.c1))
        .collect();
    let f = eip2539::field::decode_fq2(&block).expect("valid coordinate");
    assert_eq!(eip2539::field::encode_fq2(&f), block);
}

#[test]
fn decode_fr_round_trip() {
    let mut bytes = vec![0u8; 32];
    bytes[0] = 0xff;
    bytes[31] = 0x2a;
    let s = decode_fr(&bytes);
    assert_eq!(encode_fr(&s), bytes);
}

#[test]
fn g1_round_trip_generator() {
    let wire = g1_wire(G1Projective::generator());
    let p = decode_g1(&wire).expect("the generator is a valid encoding");
    assert_eq!(encode_g1(&p), wire);
    let again = decode_g1(&encode_g1(&p)).expect("round trip stays valid");
    assert_eq!(again, p);
}

#[test]
fn g1_round_trip_infinity() {
    let wire = vec![0u8; 128];
    let p = decode_g1(&wire).expect("the sentinel is a valid encoding");
    assert_eq!(p, G1Point::Infinity);
    assert_eq!(encode_g1(&p), wire);
}

#[test]
fn g2_round_trip_generator() {
    let wire = g2_wire(G2Projective::generator());
    let p = decode_g2(&wire).expect("the generator is a valid encoding");
    assert_eq!(encode_g2(&p), wire);
    let again = decode_g2(&encode_g2(&p)).expect("round trip stays valid");
    assert_eq!(again, p);
}

#[test]
fn g2_round_trip_infinity() {
    let wire = vec![0u8; 256];
    let p = decode_g2(&wire).expect("the sentinel is a valid encoding");
    assert_eq!(p, G2Point::Infinity);
    assert_eq!(encode_g2(&p), wire);
}

#[test]
fn g1_decode_rejects_bad_word() {
    let mut wire = g1_wire(G1Projective::generator());
    wire[3] = 0x55;
    assert_eq!(decode_g1(&wire), Err(PrecompileError::InvalidFieldEncoding));
}
