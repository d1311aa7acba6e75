//! The library-wide properties that relate several operations, stated and
//! proved over the same specifications the operations' contracts use.

use vstd::prelude::*;

use crate::bytes::{be_int, lemma_concat_split, zero_bytes};
use crate::errors::PrecompileError;
use crate::field::word_ok;
use crate::ops::{
    spec_g1_add, spec_g1_mul, spec_g1_multiexp, spec_g2_add, spec_g2_mul, spec_g2_multiexp,
};
use crate::pairing::{one_bytes32, spec_pairing};
use crate::point::{
    g1_encoding_err, g1_mul_full, g1_operand_err, g1_pairing_operand_err, g1_sum_full,
    g2_encoding_err, g2_mul_full, g2_operand_err, g2_pairing_operand_err, g2_sum_full,
    lemma_g1_affine_not_zero, lemma_g1_affine_view, lemma_g2_affine_not_zero,
    lemma_g2_affine_view, G1Point, G2Point,
};

verus! {

/// Round trip: the wire form of any well-formed G1 point is accepted by the
/// G1 decoder, and - since the decoder's contract fixes the decoded point's
/// wire form to be the input itself - decoding the encoding of a point
/// yields the point again; a point that also satisfies the curve equation
/// passes the full operand validation.
pub proof fn lemma_g1_codec_round_trip(p: G1Point)
    requires
        p.wf(),
    ensures
        p@.len() == 128,
        g1_encoding_err(p@) is None,
        p.curve_ok() ==> g1_operand_err(p@) is None,
{
    match p {
        G1Point::Infinity => {},
        G1Point::Affine { x, y } => {
            lemma_g1_affine_view(x, y);
        },
    }
}

/// Round trip for G2, as for G1.
pub proof fn lemma_g2_codec_round_trip(p: G2Point)
    requires
        p.wf(),
    ensures
        p@.len() == 256,
        g2_encoding_err(p@) is None,
        p.curve_ok() ==> g2_operand_err(p@) is None,
{
    match p {
        G2Point::Infinity => {},
        G2Point::Affine { x, y } => {
            lemma_g2_affine_view(x, y);
        },
    }
}

/// A 64-byte field word with any non-zero padding byte is rejected, even
/// when its low 48 bytes denote a value below the modulus.
pub proof fn lemma_nonzero_padding_rejected(w: Seq<u8>, i: int)
    requires
        w.len() == 64,
        0 <= i < 16,
        w[i] != 0,
    ensures
        !word_ok(w),
{
    if word_ok(w) {
        assert(w.subrange(0, 16)[i] == w[i]);
        assert(zero_bytes(16)[i] == 0u8);
    }
}

/// A G1 multi-scalar multiplication over a single pair returns exactly what
/// G1 scalar multiplication returns on the same 160 bytes.
pub proof fn lemma_g1_multiexp_single(input: Seq<u8>)
    requires
        input.len() == 160,
    ensures
        spec_g1_multiexp(input) == spec_g1_mul(input),
{
    assert(crate::ops::g1_pair_point(input, 0) == input.subrange(0, 128));
    assert(crate::ops::g1_pair_scalar(input, 0) == be_int(input.subrange(128, 160)));
    assert(crate::ops::g1_multiexp_err_upto(input, 0) is None);
    assert(crate::ops::g1_multiexp_acc(input, 0) == zero_bytes(128));
    assert(crate::ops::g1_multiexp_err_upto(input, 1) == g1_operand_err(input.subrange(0, 128)));
    assert(crate::ops::g1_multiexp_acc(input, 1) == g1_mul_full(
        input.subrange(0, 128),
        be_int(input.subrange(128, 160)),
    ));
}

/// A G2 multi-scalar multiplication over a single pair returns exactly what
/// G2 scalar multiplication returns on the same 288 bytes.
pub proof fn lemma_g2_multiexp_single(input: Seq<u8>)
    requires
        input.len() == 288,
    ensures
        spec_g2_multiexp(input) == spec_g2_mul(input),
{
    assert(crate::ops::g2_pair_point(input, 0) == input.subrange(0, 256));
    assert(crate::ops::g2_pair_scalar(input, 0) == be_int(input.subrange(256, 288)));
    assert(crate::ops::g2_multiexp_err_upto(input, 0) is None);
    assert(crate::ops::g2_multiexp_acc(input, 0) == zero_bytes(256));
    assert(crate::ops::g2_multiexp_err_upto(input, 1) == g2_operand_err(input.subrange(0, 256)));
    assert(crate::ops::g2_multiexp_acc(input, 1) == g2_mul_full(
        input.subrange(0, 256),
        be_int(input.subrange(256, 288)),
    ));
}

/// A pairing whose single pair has the infinity sentinel on the G1 side and
/// any valid operand on the G2 side outputs the 32-byte encoding of 1.
pub proof fn lemma_pairing_with_infinity(input: Seq<u8>)
    requires
        input.len() == 384,
        input.subrange(0, 128) == zero_bytes(128),
        g2_pairing_operand_err(input.subrange(128, 384)) is None,
    ensures
        spec_pairing(input) == Ok::<Seq<u8>, PrecompileError>(one_bytes32()),
{
    assert(crate::pairing::pairing_pair_g1(input, 0) == input.subrange(0, 128));
    assert(crate::pairing::pairing_pair_g2(input, 0) == input.subrange(128, 384));
    assert(g1_pairing_operand_err(zero_bytes(128)) is None);
    assert(crate::pairing::pairing_err_upto(input, 0) is None);
    assert(crate::pairing::pairing_active_upto(input, 0) == Seq::<Seq<u8>>::empty());
    assert(crate::pairing::pairing_err_upto(input, 1) is None);
    assert(crate::pairing::pairing_active_upto(input, 1) =~= Seq::<Seq<u8>>::empty());
}

/// A G1 point that is on the curve but outside the prime-order subgroup -
/// one whose pairing-operand validation reports exactly the subgroup error
/// - is accepted by addition, scalar multiplication and multi-scalar
/// multiplication, and rejected only by the pairing check.
pub proof fn lemma_g1_subgroup_checked_only_by_pairing(p: Seq<u8>, e: Seq<u8>, q: Seq<u8>)
    requires
        p.len() == 128,
        g1_pairing_operand_err(p) == Some(PrecompileError::IncorrectSubgroup),
        e.len() == 32,
        q.len() == 256,
        g2_pairing_operand_err(q) is None,
    ensures
        spec_g1_add(p + p) == Ok::<Seq<u8>, PrecompileError>(g1_sum_full(p, p)),
        spec_g1_mul(p + e) == Ok::<Seq<u8>, PrecompileError>(g1_mul_full(p, be_int(e))),
        spec_g1_multiexp(p + e) == Ok::<Seq<u8>, PrecompileError>(g1_mul_full(p, be_int(e))),
        spec_pairing(p + q) == Err::<Seq<u8>, PrecompileError>(PrecompileError::IncorrectSubgroup),
{
    assert(g1_operand_err(p) is None);
    lemma_concat_split(p, p);
    lemma_concat_split(p, e);
    lemma_concat_split(p, q);
    lemma_g1_multiexp_single(p + e);
    assert(crate::pairing::pairing_pair_g1(p + q, 0) == p);
    assert(crate::pairing::pairing_err_upto(p + q, 0) is None);
    assert(crate::pairing::pairing_err_upto(p + q, 1) == Some(
        PrecompileError::IncorrectSubgroup,
    ));
}

/// The same for a G2 point outside its subgroup: accepted by the G2 group
/// operations, rejected only by the pairing check (here with a fully valid
/// G1 operand before it, so the subgroup error is the first violation).
pub proof fn lemma_g2_subgroup_checked_only_by_pairing(p: Seq<u8>, e: Seq<u8>, q: Seq<u8>)
    requires
        p.len() == 256,
        g2_pairing_operand_err(p) == Some(PrecompileError::IncorrectSubgroup),
        e.len() == 32,
        q.len() == 128,
        g1_pairing_operand_err(q) is None,
    ensures
        spec_g2_add(p + p) == Ok::<Seq<u8>, PrecompileError>(g2_sum_full(p, p)),
        spec_g2_mul(p + e) == Ok::<Seq<u8>, PrecompileError>(g2_mul_full(p, be_int(e))),
        spec_g2_multiexp(p + e) == Ok::<Seq<u8>, PrecompileError>(g2_mul_full(p, be_int(e))),
        spec_pairing(q + p) == Err::<Seq<u8>, PrecompileError>(PrecompileError::IncorrectSubgroup),
{
    assert(g2_operand_err(p) is None);
    lemma_concat_split(p, p);
    lemma_concat_split(p, e);
    lemma_concat_split(q, p);
    lemma_g2_multiexp_single(p + e);
    assert(crate::pairing::pairing_pair_g1(q + p, 0) == q);
    assert(crate::pairing::pairing_pair_g2(q + p, 0) == p);
    assert(crate::pairing::pairing_err_upto(q + p, 0) is None);
    assert(crate::pairing::pairing_err_upto(q + p, 1) == Some(
        PrecompileError::IncorrectSubgroup,
    ));
}

} // verus!

