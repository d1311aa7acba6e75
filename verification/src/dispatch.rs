use vstd::prelude::*;

use crate::errors::PrecompileError;
use crate::ops::{
    g1_add, g1_mul, g1_multiexp, g2_add, g2_mul, g2_multiexp, result_bytes, spec_g1_add,
    spec_g1_mul, spec_g1_multiexp, spec_g2_add, spec_g2_mul, spec_g2_multiexp,
};
use crate::pairing::{pairing, spec_pairing};

verus! {

/// The seven operations of the precompile.
#[derive(Clone, Copy, Debug, PartialEq, Eq, Structural)]
pub enum Operation {
    G1Add,
    G1Mul,
    G1MultiExp,
    G2Add,
    G2Mul,
    G2MultiExp,
    Pairing,
}

/// What each operation returns for every input.
pub open spec fn spec_execute(op: Operation, input: Seq<u8>) -> Result<Seq<u8>, PrecompileError> {
    match op {
        Operation::G1Add => spec_g1_add(input),
        Operation::G1Mul => spec_g1_mul(input),
        Operation::G1MultiExp => spec_g1_multiexp(input),
        Operation::G2Add => spec_g2_add(input),
        Operation::G2Mul => spec_g2_mul(input),
        Operation::G2MultiExp => spec_g2_multiexp(input),
        Operation::Pairing => spec_pairing(input),
    }
}

/// Runs one operation on raw input bytes: length check, per-operand
/// validation in input order, arithmetic, output encoding.
pub fn execute(op: Operation, input: &[u8]) -> (r: Result<Vec<u8>, PrecompileError>)
    ensures
        result_bytes(r) == spec_execute(op, input@),
{
    match op {
        Operation::G1Add => g1_add(input),
        Operation::G1Mul => g1_mul(input),
        Operation::G1MultiExp => g1_multiexp(input),
        Operation::G2Add => g2_add(input),
        Operation::G2Mul => g2_mul(input),
        Operation::G2MultiExp => g2_multiexp(input),
        Operation::Pairing => pairing(input),
    }
}

} // verus!
