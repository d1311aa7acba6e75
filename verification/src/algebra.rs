//! The trusted boundary to the arkworks algebra libraries.
//!
//! Everything below either gives a name to the byte-level result of a
//! deterministic arkworks computation, or wraps one arkworks call in a
//! function whose contract Verus believes. All values crossing the boundary
//! are canonical wire bytes held in the library's own types; each wrapper
//! body converts them to arkworks values (the local closures), makes its
//! one call, and converts the result back.

use vstd::prelude::*;

use crate::bytes::zero_bytes;
use crate::field::{Fe, Fe2, Scalar};
use crate::point::{
    g1_affine_bytes, g1_on_curve_eq, g2_affine_bytes, g2_on_curve_eq, G1Point, G2Point,
};

use ark_bls12_377::{Bls12_377, Fq, Fq2, Fr, G1Affine, G2Affine};
use ark_ec::pairing::Pairing;
use ark_ec::{AffineRepr, CurveGroup};
use ark_ff::{BigInteger, One, PrimeField};

verus! {

/// The 128-byte wire form of the group sum of the two G1 points with the
/// given 128-byte wire forms.
pub uninterp spec fn g1_sum(a: Seq<u8>, b: Seq<u8>) -> Seq<u8>;

/// The 128-byte wire form of e times the G1 point with the given 128-byte
/// wire form; e is the raw scalar integer, reduced by the arithmetic.
pub uninterp spec fn g1_scalar_mul(p: Seq<u8>, e: nat) -> Seq<u8>;

/// Whether the on-curve G1 point with the given wire form lies in the
/// prime-order subgroup.
pub uninterp spec fn g1_in_subgroup(p: Seq<u8>) -> bool;

/// The 256-byte wire form of the group sum of the two G2 points with the
/// given 256-byte wire forms.
pub uninterp spec fn g2_sum(a: Seq<u8>, b: Seq<u8>) -> Seq<u8>;

/// The 256-byte wire form of e times the G2 point with the given 256-byte
/// wire form.
pub uninterp spec fn g2_scalar_mul(p: Seq<u8>, e: nat) -> Seq<u8>;

/// Whether the on-curve G2 point with the given wire form lies in the
/// prime-order subgroup.
pub uninterp spec fn g2_in_subgroup(p: Seq<u8>) -> bool;

/// Whether the product of the pairings of the given (G1, G2) pairs - each a
/// 384-byte concatenation of the two wire forms, every point affine,
/// on-curve and in its subgroup - equals the identity of the target group.
pub uninterp spec fn pairing_product_is_one(pairs: Seq<Seq<u8>>) -> bool;

/// Relies on arkworks G1 group addition over BLS12-377: the sum of two
/// on-curve points is a point of the curve group (on the curve, canonical
/// coordinates), addition is commutative, and the result is a function of
/// the operand points alone.
#[verifier::external_body]
pub(crate) fn g1_add_points(ax: &Fe, ay: &Fe, bx: &Fe, by: &Fe) -> (r: G1Point)
    requires
        ax.wf(),
        ay.wf(),
        bx.wf(),
        by.wf(),
        g1_on_curve_eq(ax.value() as int, ay.value() as int),
        g1_on_curve_eq(bx.value() as int, by.value() as int),
    ensures
        r.wf(),
        r.curve_ok(),
        r@ == g1_sum(g1_affine_bytes(ax@, ay@), g1_affine_bytes(bx@, by@)),
        r@ == g1_sum(g1_affine_bytes(bx@, by@), g1_affine_bytes(ax@, ay@)),
{
    let f = |v: &Fe| Fq::from_be_bytes_mod_order(&v.bytes);
    let h = |v: Fq| Fe { bytes: v.into_bigint().to_bytes_be() };
    let s = (G1Affine::new_unchecked(f(ax), f(ay)).into_group()
        + G1Affine::new_unchecked(f(bx), f(by)).into_group()).into_affine();
    if s.infinity {
        G1Point::Infinity
    } else {
        G1Point::Affine { x: h(s.x), y: h(s.y) }
    }
}

/// Relies on arkworks G1 scalar multiplication over BLS12-377: the result
/// is a curve-group point determined by the operand point and the raw
/// scalar integer (reduced modulo the subgroup order by the arithmetic);
/// scalar 0 yields the identity and scalar 1 yields the operand itself.
#[verifier::external_body]
pub(crate) fn g1_mul_point(x: &Fe, y: &Fe, e: &Scalar) -> (r: G1Point)
    requires
        x.wf(),
        y.wf(),
        e.wf(),
        g1_on_curve_eq(x.value() as int, y.value() as int),
    ensures
        r.wf(),
        r.curve_ok(),
        r@ == g1_scalar_mul(g1_affine_bytes(x@, y@), e.value()),
        e.value() == 0 ==> r@ == zero_bytes(128),
        e.value() == 1 ==> r@ == g1_affine_bytes(x@, y@),
{
    let f = |v: &Fe| Fq::from_be_bytes_mod_order(&v.bytes);
    let h = |v: Fq| Fe { bytes: v.into_bigint().to_bytes_be() };
    let s = (G1Affine::new_unchecked(f(x), f(y)).into_group()
        * Fr::from_be_bytes_mod_order(&e.bytes)).into_affine();
    if s.infinity {
        G1Point::Infinity
    } else {
        G1Point::Affine { x: h(s.x), y: h(s.y) }
    }
}

/// Relies on `G1Affine::is_on_curve`, which evaluates the curve equation
/// y^2 = x^3 + 1 on the given coordinates.
#[verifier::external_body]
pub(crate) fn g1_check_on_curve(x: &Fe, y: &Fe) -> (r: bool)
    requires
        x.wf(),
        y.wf(),
    ensures
        r == g1_on_curve_eq(x.value() as int, y.value() as int),
{
    let f = |v: &Fe| Fq::from_be_bytes_mod_order(&v.bytes);
    G1Affine::new_unchecked(f(x), f(y)).is_on_curve()
}

/// Relies on `G1Affine::is_in_correct_subgroup_assuming_on_curve`, which
/// decides membership in the subgroup of the scalar field's order.
#[verifier::external_body]
pub(crate) fn g1_check_subgroup(x: &Fe, y: &Fe) -> (r: bool)
    requires
        x.wf(),
        y.wf(),
        g1_on_curve_eq(x.value() as int, y.value() as int),
    ensures
        r == g1_in_subgroup(g1_affine_bytes(x@, y@)),
{
    let f = |v: &Fe| Fq::from_be_bytes_mod_order(&v.bytes);
    G1Affine::new_unchecked(f(x), f(y)).is_in_correct_subgroup_assuming_on_curve()
}

/// Relies on arkworks G2 group addition over BLS12-377, as for G1.
#[verifier::external_body]
pub(crate) fn g2_add_points(ax: &Fe2, ay: &Fe2, bx: &Fe2, by: &Fe2) -> (r: G2Point)
    requires
        ax.wf(),
        ay.wf(),
        bx.wf(),
        by.wf(),
        g2_on_curve_eq(
            ax.c0.value() as int,
            ax.c1.value() as int,
            ay.c0.value() as int,
            ay.c1.value() as int,
        ),
        g2_on_curve_eq(
            bx.c0.value() as int,
            bx.c1.value() as int,
            by.c0.value() as int,
            by.c1.value() as int,
        ),
    ensures
        r.wf(),
        r.curve_ok(),
        r@ == g2_sum(g2_affine_bytes(ax@, ay@), g2_affine_bytes(bx@, by@)),
        r@ == g2_sum(g2_affine_bytes(bx@, by@), g2_affine_bytes(ax@, ay@)),
{
    let g = |v: &Fe2| Fq2::new(
        Fq::from_be_bytes_mod_order(&v.c0.bytes),
        Fq::from_be_bytes_mod_order(&v.c1.bytes),
    );
    let h = |v: Fq2| Fe2 {
        c0: Fe { bytes: v.c0.into_bigint().to_bytes_be() },
        c1: Fe { bytes: v.c1.into_bigint().to_bytes_be() },
    };
    let s = (G2Affine::new_unchecked(g(ax), g(ay)).into_group()
        + G2Affine::new_unchecked(g(bx), g(by)).into_group()).into_affine();
    if s.infinity {
        G2Point::Infinity
    } else {
        G2Point::Affine { x: h(s.x), y: h(s.y) }
    }
}

/// Relies on arkworks G2 scalar multiplication over BLS12-377, as for G1.
#[verifier::external_body]
pub(crate) fn g2_mul_point(x: &Fe2, y: &Fe2, e: &Scalar) -> (r: G2Point)
    requires
        x.wf(),
        y.wf(),
        e.wf(),
        g2_on_curve_eq(
            x.c0.value() as int,
            x.c1.value() as int,
            y.c0.value() as int,
            y.c1.value() as int,
        ),
    ensures
        r.wf(),
        r.curve_ok(),
        r@ == g2_scalar_mul(g2_affine_bytes(x@, y@), e.value()),
        e.value() == 0 ==> r@ == zero_bytes(256),
        e.value() == 1 ==> r@ == g2_affine_bytes(x@, y@),
{
    let g = |v: &Fe2| Fq2::new(
        Fq::from_be_bytes_mod_order(&v.c0.bytes),
        Fq::from_be_bytes_mod_order(&v.c1.bytes),
    );
    let h = |v: Fq2| Fe2 {
        c0: Fe { bytes: v.c0.into_bigint().to_bytes_be() },
        c1: Fe { bytes: v.c1.into_bigint().to_bytes_be() },
    };
    let s = (G2Affine::new_unchecked(g(x), g(y)).into_group()
        * Fr::from_be_bytes_mod_order(&e.bytes)).into_affine();
    if s.infinity {
        G2Point::Infinity
    } else {
        G2Point::Affine { x: h(s.x), y: h(s.y) }
    }
}

/// Relies on `G2Affine::is_on_curve`, which evaluates the twist equation
/// y^2 = x^3 + b' on the given coordinates.
#[verifier::external_body]
pub(crate) fn g2_check_on_curve(x: &Fe2, y: &Fe2) -> (r: bool)
    requires
        x.wf(),
        y.wf(),
    ensures
        r == g2_on_curve_eq(
            x.c0.value() as int,
            x.c1.value() as int,
            y.c0.value() as int,
            y.c1.value() as int,
        ),
{
    let g = |v: &Fe2| Fq2::new(
        Fq::from_be_bytes_mod_order(&v.c0.bytes),
        Fq::from_be_bytes_mod_order(&v.c1.bytes),
    );
    G2Affine::new_unchecked(g(x), g(y)).is_on_curve()
}

/// Relies on `G2Affine::is_in_correct_subgroup_assuming_on_curve`.
#[verifier::external_body]
pub(crate) fn g2_check_subgroup(x: &Fe2, y: &Fe2) -> (r: bool)
    requires
        x.wf(),
        y.wf(),
        g2_on_curve_eq(
            x.c0.value() as int,
            x.c1.value() as int,
            y.c0.value() as int,
            y.c1.value() as int,
        ),
    ensures
        r == g2_in_subgroup(g2_affine_bytes(x@, y@)),
{
    let g = |v: &Fe2| Fq2::new(
        Fq::from_be_bytes_mod_order(&v.c0.bytes),
        Fq::from_be_bytes_mod_order(&v.c1.bytes),
    );
    G2Affine::new_unchecked(g(x), g(y)).is_in_correct_subgroup_assuming_on_curve()
}

/// One validated pairing operand pair, both points affine.
pub struct PairingPair {
    pub a_x: Fe,
    pub a_y: Fe,
    pub b_x: Fe2,
    pub b_y: Fe2,
}

/// The 384-byte wire form of a pairing operand pair.
pub open spec fn pair_bytes(p: PairingPair) -> Seq<u8> {
    g1_affine_bytes(p.a_x@, p.a_y@) + g2_affine_bytes(p.b_x@, p.b_y@)
}

/// The wire forms of a list of pairing operand pairs.
pub open spec fn pairs_bytes(ps: Seq<PairingPair>) -> Seq<Seq<u8>> {
    ps.map_values(|p: PairingPair| pair_bytes(p))
}

/// Both points of the pair are canonical, on their curves, and in their
/// prime-order subgroups.
pub open spec fn pair_valid(p: PairingPair) -> bool {
    &&& p.a_x.wf() && p.a_y.wf() && p.b_x.wf() && p.b_y.wf()
    &&& g1_on_curve_eq(p.a_x.value() as int, p.a_y.value() as int)
    &&& g2_on_curve_eq(
        p.b_x.c0.value() as int,
        p.b_x.c1.value() as int,
        p.b_y.c0.value() as int,
        p.b_y.c1.value() as int,
    )
    &&& g1_in_subgroup(g1_affine_bytes(p.a_x@, p.a_y@))
    &&& g2_in_subgroup(g2_affine_bytes(p.b_x@, p.b_y@))
}

/// Relies on `Bls12_377::multi_pairing`: a combined Miller loop over all
/// pairs followed by one final exponentiation, then the identity test of
/// the target group. For subgroup points the final exponentiation never
/// fails.
#[verifier::external_body]
pub(crate) fn pairing_check(pairs: &Vec<PairingPair>) -> (r: bool)
    requires
        forall|i: int| 0 <= i < pairs@.len() ==> #[trigger] pair_valid(pairs@[i]),
    ensures
        r == pairing_product_is_one(pairs_bytes(pairs@)),
{
    let f = |v: &Fe| Fq::from_be_bytes_mod_order(&v.bytes);
    let g = |v: &Fe2| Fq2::new(f(&v.c0), f(&v.c1));
    let g1s: Vec<G1Affine> = pairs.iter().map(
        |p| G1Affine::new_unchecked(f(&p.a_x), f(&p.a_y)),
    ).collect();
    let g2s: Vec<G2Affine> = pairs.iter().map(
        |p| G2Affine::new_unchecked(g(&p.b_x), g(&p.b_y)),
    ).collect();
    Bls12_377::multi_pairing(g1s, g2s).0.is_one()
}

} // verus!
