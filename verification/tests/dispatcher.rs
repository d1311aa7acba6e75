use ark_bls12_377::{Fq, G1Projective};
use ark_ec::{CurveGroup, Group};
use ark_ff::{BigInteger, PrimeField};

use eip2539::{execute, g1_add, Operation, PrecompileError};

fn fq_word_bytes(f: Fq) -> Vec<u8> {
    let mut w = vec![0u8; 16];
    w.extend(f.into_bigint().to_bytes_be());
    w
}

fn g1_wire(p: G1Projective) -> Vec<u8> {
    let a = p.into_affine();
    if a.infinity {
        return vec![0u8; 128];
    }
    let mut v = fq_word_bytes(a.x);
    v.extend(fq_word_bytes(a.y));
    v
}

#[test]
fn execute_dispatches_to_the_named_operation() {
    let g = G1Projective::generator();
    let mut input = g1_wire(g);
    input.extend(g1_wire(g));
    assert_eq!(execute(Operation::G1Add, &input), g1_add(&input));
    assert_eq!(execute(Operation::G1Add, &input), Ok(g1_wire(g + g)));
    // The same bytes under another operation fail its length formula.
    assert_eq!(
        execute(Operation::G1Mul, &input),
        Err(PrecompileError::InvalidInputLength)
    );
    assert_eq!(
        execute(Operation::Pairing, &input),
        Err(PrecompileError::InvalidInputLength)
    );
}
