use vstd::prelude::*;

use crate::algebra;
use crate::bytes::{
    append_bytes, append_zero_bytes, be_int, bytes_all_zero, lemma_be_int_zero, lemma_concat_split,
    zero_bytes,
};
use crate::errors::PrecompileError;
use crate::field::{decode_fq, encode_fq, fq_word, q, word_ok, word_value, Fe, Fe2, Scalar};

verus! {

/// The G1 curve equation y^2 = x^3 + 1 over the base field, on canonical
/// residues.
pub open spec fn g1_on_curve_eq(x: int, y: int) -> bool {
    (y * y) % (q() as int) == ((x * x) % (q() as int) * x + 1) % (q() as int)
}

/// c0 of the product of quadratic-extension elements (a0 + a1*u) and
/// (b0 + b1*u), where u^2 = -5.
pub open spec fn fq2_mul_c0(a0: int, a1: int, b0: int, b1: int) -> int {
    (a0 * b0 + ((q() as int) - 5) * (a1 * b1)) % (q() as int)
}

/// c1 of the same product.
pub open spec fn fq2_mul_c1(a0: int, a1: int, b0: int, b1: int) -> int {
    (a0 * b1 + a1 * b0) % (q() as int)
}

/// The 48 big-endian bytes of b1, the c1 coordinate of the G2 curve
/// constant b' = (0, b1) (the G1 constant divided by u):
/// 155198655607781456406391640216936120121836107652948796323930557600032281009004493664981332883744016074664192874906.
pub open spec fn g2_b_c1_bytes() -> Seq<u8> {
    seq![
        0x01u8, 0x02, 0x22, 0xf6, 0xdb, 0x0f, 0xd6, 0xf3, 0x43, 0xbd, 0x03, 0x73, 0x74, 0x60, 0xc5,
        0x89, 0xdc, 0x7b, 0x4f, 0x91, 0xcd, 0x5f, 0xd8, 0x89, 0x12, 0x92, 0x07, 0xb6, 0x3c, 0x6b,
        0xf8, 0x00, 0x0d, 0xd3, 0x9e, 0x5c, 0x1c, 0xcc, 0xcc, 0xcd, 0x1c, 0x9e, 0xd9, 0x99, 0x99,
        0x99, 0x99, 0x9a,
    ]
}

/// c1 of the G2 curve constant, as an integer.
pub open spec fn g2_b_c1() -> int {
    be_int(g2_b_c1_bytes()) as int
}

/// The G2 curve equation y^2 = x^3 + (0, b1) over the quadratic extension,
/// on canonical residue pairs x = (x0, x1), y = (y0, y1).
pub open spec fn g2_on_curve_eq(x0: int, x1: int, y0: int, y1: int) -> bool {
    let x2_0 = fq2_mul_c0(x0, x1, x0, x1);
    let x2_1 = fq2_mul_c1(x0, x1, x0, x1);
    let x3_0 = fq2_mul_c0(x2_0, x2_1, x0, x1);
    let x3_1 = fq2_mul_c1(x2_0, x2_1, x0, x1);
    let y2_0 = fq2_mul_c0(y0, y1, y0, y1);
    let y2_1 = fq2_mul_c1(y0, y1, y0, y1);
    y2_0 == x3_0 && y2_1 == (x3_1 + g2_b_c1()) % (q() as int)
}

/// A G1 point: either the point at infinity (wire form: 128 zero bytes) or
/// an affine coordinate pair of base-field elements.
#[derive(Clone, Debug, PartialEq, Eq)]
pub enum G1Point {
    Infinity,
    Affine { x: Fe, y: Fe },
}

/// The 128-byte wire form of an affine G1 coordinate pair.
pub open spec fn g1_affine_bytes(x: Seq<u8>, y: Seq<u8>) -> Seq<u8> {
    fq_word(x) + fq_word(y)
}

impl View for G1Point {
    type V = Seq<u8>;

    open spec fn view(&self) -> Seq<u8> {
        match self {
            G1Point::Infinity => zero_bytes(128),
            G1Point::Affine { x, y } => g1_affine_bytes(x@, y@),
        }
    }
}

impl G1Point {
    /// Canonical coordinates; an affine pair is never (0, 0), which is
    /// reserved for the infinity sentinel (and is not a curve solution).
    pub open spec fn wf(&self) -> bool {
        match self {
            G1Point::Infinity => true,
            G1Point::Affine { x, y } => x.wf() && y.wf() && !(x.value() == 0 && y.value() == 0),
        }
    }

    /// The point satisfies the curve equation, or is infinity.
    pub open spec fn curve_ok(&self) -> bool {
        match self {
            G1Point::Infinity => true,
            G1Point::Affine { x, y } => g1_on_curve_eq(x.value() as int, y.value() as int),
        }
    }

    /// The point lies in the prime-order subgroup, or is infinity.
    pub open spec fn subgroup_ok(&self) -> bool {
        match self {
            G1Point::Infinity => true,
            G1Point::Affine { x, y } => algebra::g1_in_subgroup(g1_affine_bytes(x@, y@)),
        }
    }
}

/// A G2 point: either the point at infinity (wire form: 256 zero bytes) or
/// an affine coordinate pair of quadratic-extension elements.
#[derive(Clone, Debug, PartialEq, Eq)]
pub enum G2Point {
    Infinity,
    Affine { x: Fe2, y: Fe2 },
}

/// The 256-byte wire form of an affine G2 coordinate pair, each coordinate
/// already in its two-word wire form.
pub open spec fn g2_affine_bytes(x: Seq<u8>, y: Seq<u8>) -> Seq<u8> {
    x + y
}

impl View for G2Point {
    type V = Seq<u8>;

    open spec fn view(&self) -> Seq<u8> {
        match self {
            G2Point::Infinity => zero_bytes(256),
            G2Point::Affine { x, y } => g2_affine_bytes(x@, y@),
        }
    }
}

impl G2Point {
    pub open spec fn wf(&self) -> bool {
        match self {
            G2Point::Infinity => true,
            G2Point::Affine { x, y } => x.wf() && y.wf() && !(x.c0.value() == 0 && x.c1.value()
                == 0 && y.c0.value() == 0 && y.c1.value() == 0),
        }
    }

    pub open spec fn curve_ok(&self) -> bool {
        match self {
            G2Point::Infinity => true,
            G2Point::Affine { x, y } => g2_on_curve_eq(
                x.c0.value() as int,
                x.c1.value() as int,
                y.c0.value() as int,
                y.c1.value() as int,
            ),
        }
    }

    pub open spec fn subgroup_ok(&self) -> bool {
        match self {
            G2Point::Infinity => true,
            G2Point::Affine { x, y } => algebra::g2_in_subgroup(g2_affine_bytes(x@, y@)),
        }
    }
}

/// The x value of a 128-byte G1 encoding, as an integer.
pub open spec fn g1_x_int(b: Seq<u8>) -> int {
    be_int(word_value(b.subrange(0, 64))) as int
}

/// The y value of a 128-byte G1 encoding, as an integer.
pub open spec fn g1_y_int(b: Seq<u8>) -> int {
    be_int(word_value(b.subrange(64, 128))) as int
}

/// The first encoding-level failure of a 128-byte G1 operand: `None` for the
/// infinity sentinel and for two canonical words.
pub open spec fn g1_encoding_err(b: Seq<u8>) -> Option<PrecompileError> {
    if b == zero_bytes(128) {
        None
    } else if !word_ok(b.subrange(0, 64)) || !word_ok(b.subrange(64, 128)) {
        Some(PrecompileError::InvalidFieldEncoding)
    } else {
        None
    }
}

/// The first failure of a 128-byte G1 operand under the validation order of
/// the non-pairing operations: encoding, then the curve equation.
pub open spec fn g1_operand_err(b: Seq<u8>) -> Option<PrecompileError> {
    match g1_encoding_err(b) {
        Some(e) => Some(e),
        None => if b != zero_bytes(128) && !g1_on_curve_eq(g1_x_int(b), g1_y_int(b)) {
            Some(PrecompileError::PointNotOnCurve)
        } else {
            None
        },
    }
}

/// The first failure of a 128-byte G1 pairing operand: encoding, curve,
/// then subgroup membership; the infinity sentinel passes all three.
pub open spec fn g1_pairing_operand_err(b: Seq<u8>) -> Option<PrecompileError> {
    match g1_operand_err(b) {
        Some(e) => Some(e),
        None => if b != zero_bytes(128) && !algebra::g1_in_subgroup(b) {
            Some(PrecompileError::IncorrectSubgroup)
        } else {
            None
        },
    }
}

/// The coordinate values of a 256-byte G2 encoding, as integers.
pub open spec fn g2_x0_int(b: Seq<u8>) -> int {
    be_int(word_value(b.subrange(0, 64))) as int
}

pub open spec fn g2_x1_int(b: Seq<u8>) -> int {
    be_int(word_value(b.subrange(64, 128))) as int
}

pub open spec fn g2_y0_int(b: Seq<u8>) -> int {
    be_int(word_value(b.subrange(128, 192))) as int
}

pub open spec fn g2_y1_int(b: Seq<u8>) -> int {
    be_int(word_value(b.subrange(192, 256))) as int
}

/// The first encoding-level failure of a 256-byte G2 operand.
pub open spec fn g2_encoding_err(b: Seq<u8>) -> Option<PrecompileError> {
    if b == zero_bytes(256) {
        None
    } else if !word_ok(b.subrange(0, 64)) || !word_ok(b.subrange(64, 128)) || !word_ok(
        b.subrange(128, 192),
    ) || !word_ok(b.subrange(192, 256)) {
        Some(PrecompileError::InvalidFieldEncoding)
    } else {
        None
    }
}

/// The first failure of a 256-byte G2 operand: encoding, then the curve
/// equation.
pub open spec fn g2_operand_err(b: Seq<u8>) -> Option<PrecompileError> {
    match g2_encoding_err(b) {
        Some(e) => Some(e),
        None => if b != zero_bytes(256) && !g2_on_curve_eq(
            g2_x0_int(b),
            g2_x1_int(b),
            g2_y0_int(b),
            g2_y1_int(b),
        ) {
            Some(PrecompileError::PointNotOnCurve)
        } else {
            None
        },
    }
}

/// The first failure of a 256-byte G2 pairing operand: encoding, curve,
/// then subgroup membership.
pub open spec fn g2_pairing_operand_err(b: Seq<u8>) -> Option<PrecompileError> {
    match g2_operand_err(b) {
        Some(e) => Some(e),
        None => if b != zero_bytes(256) && !algebra::g2_in_subgroup(b) {
            Some(PrecompileError::IncorrectSubgroup)
        } else {
            None
        },
    }
}

/// The wire form of an affine G1 pair splits back into two canonical words.
pub proof fn lemma_g1_affine_view(x: Fe, y: Fe)
    requires
        x.wf(),
        y.wf(),
    ensures
        g1_affine_bytes(x@, y@).len() == 128,
        g1_affine_bytes(x@, y@).subrange(0, 64) == fq_word(x@),
        g1_affine_bytes(x@, y@).subrange(64, 128) == fq_word(y@),
        word_ok(fq_word(x@)),
        word_ok(fq_word(y@)),
        g1_x_int(g1_affine_bytes(x@, y@)) == x.value(),
        g1_y_int(g1_affine_bytes(x@, y@)) == y.value(),
{
    lemma_word_view(x);
    lemma_word_view(y);
    lemma_concat_split(fq_word(x@), fq_word(y@));
}

/// A single canonical word splits into its padding and value parts.
pub proof fn lemma_word_view(x: Fe)
    requires
        x.wf(),
    ensures
        fq_word(x@).len() == 64,
        word_ok(fq_word(x@)),
        word_value(fq_word(x@)) == x@,
{
    lemma_concat_split(zero_bytes(16), x@);
    assert(fq_word(x@).subrange(16, 64) =~= x@);
}

/// A well-formed affine G1 pair never encodes as the infinity sentinel.
pub proof fn lemma_g1_affine_not_zero(x: Fe, y: Fe)
    requires
        x.wf(),
        y.wf(),
        !(x.value() == 0 && y.value() == 0),
    ensures
        g1_affine_bytes(x@, y@) != zero_bytes(128),
{
    let b = g1_affine_bytes(x@, y@);
    lemma_g1_affine_view(x, y);
    if b == zero_bytes(128) {
        assert(b.subrange(0, 64).subrange(16, 64) =~= zero_bytes(48));
        assert(b.subrange(64, 128).subrange(16, 64) =~= zero_bytes(48));
        assert(x@ =~= zero_bytes(48));
        assert(y@ =~= zero_bytes(48));
        lemma_be_int_zero(x@);
        lemma_be_int_zero(y@);
    }
}

/// The wire form of an affine G2 pair splits back into four canonical words.
pub proof fn lemma_g2_affine_view(x: Fe2, y: Fe2)
    requires
        x.wf(),
        y.wf(),
    ensures
        g2_affine_bytes(x@, y@).len() == 256,
        g2_affine_bytes(x@, y@).subrange(0, 64) == fq_word(x.c0@),
        g2_affine_bytes(x@, y@).subrange(64, 128) == fq_word(x.c1@),
        g2_affine_bytes(x@, y@).subrange(128, 192) == fq_word(y.c0@),
        g2_affine_bytes(x@, y@).subrange(192, 256) == fq_word(y.c1@),
        word_ok(fq_word(x.c0@)),
        word_ok(fq_word(x.c1@)),
        word_ok(fq_word(y.c0@)),
        word_ok(fq_word(y.c1@)),
        g2_x0_int(g2_affine_bytes(x@, y@)) == x.c0.value(),
        g2_x1_int(g2_affine_bytes(x@, y@)) == x.c1.value(),
        g2_y0_int(g2_affine_bytes(x@, y@)) == y.c0.value(),
        g2_y1_int(g2_affine_bytes(x@, y@)) == y.c1.value(),
{
    lemma_word_view(x.c0);
    lemma_word_view(x.c1);
    lemma_word_view(y.c0);
    lemma_word_view(y.c1);
    let b = g2_affine_bytes(x@, y@);
    assert(b.subrange(0, 64) =~= fq_word(x.c0@));
    assert(b.subrange(64, 128) =~= fq_word(x.c1@));
    assert(b.subrange(128, 192) =~= fq_word(y.c0@));
    assert(b.subrange(192, 256) =~= fq_word(y.c1@));
}

/// A well-formed affine G2 pair never encodes as the infinity sentinel.
pub proof fn lemma_g2_affine_not_zero(x: Fe2, y: Fe2)
    requires
        x.wf(),
        y.wf(),
        !(x.c0.value() == 0 && x.c1.value() == 0 && y.c0.value() == 0 && y.c1.value() == 0),
    ensures
        g2_affine_bytes(x@, y@) != zero_bytes(256),
{
    let b = g2_affine_bytes(x@, y@);
    lemma_g2_affine_view(x, y);
    if b == zero_bytes(256) {
        assert(b.subrange(0, 64).subrange(16, 64) =~= zero_bytes(48));
        assert(b.subrange(64, 128).subrange(16, 64) =~= zero_bytes(48));
        assert(b.subrange(128, 192).subrange(16, 64) =~= zero_bytes(48));
        assert(b.subrange(192, 256).subrange(16, 64) =~= zero_bytes(48));
        assert(x.c0@ =~= zero_bytes(48));
        assert(x.c1@ =~= zero_bytes(48));
        assert(y.c0@ =~= zero_bytes(48));
        assert(y.c1@ =~= zero_bytes(48));
        lemma_be_int_zero(x.c0@);
        lemma_be_int_zero(x.c1@);
        lemma_be_int_zero(y.c0@);
        lemma_be_int_zero(y.c1@);
    }
}

/// Decodes a 128-byte G1 operand: 128 zero bytes are the point at infinity,
/// anything else must be two canonical field words.
pub fn decode_g1(b: &[u8]) -> (r: Result<G1Point, PrecompileError>)
    requires
        b@.len() == 128,
    ensures
        match r {
            Ok(p) => g1_encoding_err(b@) is None && p.wf() && p@ == b@,
            Err(e) => g1_encoding_err(b@) == Some(e),
        },
{
    if bytes_all_zero(b) {
        let p = G1Point::Infinity;
        proof {
            assert(p@ =~= b@);
        }
        return Ok(p);
    }
    let x = decode_fq(vstd::slice::slice_subrange(b, 0, 64))?;
    let y = decode_fq(vstd::slice::slice_subrange(b, 64, 128))?;
    let p = G1Point::Affine { x, y };
    proof {
        lemma_g1_affine_view(x, y);
        assert(p@ =~= b@);
        assert(!(x.value() == 0 && y.value() == 0)) by {
            if x.value() == 0 && y.value() == 0 {
                lemma_be_int_zero(x@);
                lemma_be_int_zero(y@);
                assert(x@ =~= zero_bytes(48));
                assert(y@ =~= zero_bytes(48));
                assert(b@ =~= zero_bytes(128));
            }
        }
    }
    Ok(p)
}

/// Encodes a G1 point as its 128-byte wire form; infinity becomes the
/// all-zero sentinel.
pub fn encode_g1(p: &G1Point) -> (r: Vec<u8>)
    requires
        p.wf(),
    ensures
        r@ == p@,
        r@.len() == 128,
{
    match p {
        G1Point::Infinity => {
            let mut r: Vec<u8> = Vec::new();
            append_zero_bytes(&mut r, 128);
            proof {
                assert(r@ =~= zero_bytes(128));
            }
            r
        },
        G1Point::Affine { x, y } => {
            let mut r = encode_fq(x);
            let yw = encode_fq(y);
            append_bytes(&mut r, yw.as_slice());
            r
        },
    }
}

/// Decodes a 256-byte G2 operand: 256 zero bytes are the point at infinity,
/// anything else must be four canonical field words.
pub fn decode_g2(b: &[u8]) -> (r: Result<G2Point, PrecompileError>)
    requires
        b@.len() == 256,
    ensures
        match r {
            Ok(p) => g2_encoding_err(b@) is None && p.wf() && p@ == b@,
            Err(e) => g2_encoding_err(b@) == Some(e),
        },
{
    if bytes_all_zero(b) {
        let p = G2Point::Infinity;
        proof {
            assert(p@ =~= b@);
        }
        return Ok(p);
    }
    let x0 = decode_fq(vstd::slice::slice_subrange(b, 0, 64))?;
    let x1 = decode_fq(vstd::slice::slice_subrange(b, 64, 128))?;
    let y0 = decode_fq(vstd::slice::slice_subrange(b, 128, 192))?;
    let y1 = decode_fq(vstd::slice::slice_subrange(b, 192, 256))?;
    let x = Fe2 { c0: x0, c1: x1 };
    let y = Fe2 { c0: y0, c1: y1 };
    let p = G2Point::Affine { x, y };
    proof {
        lemma_g2_affine_view(x, y);
        assert(p@ =~= b@);
        assert(!(x.c0.value() == 0 && x.c1.value() == 0 && y.c0.value() == 0 && y.c1.value()
            == 0)) by {
            if x.c0.value() == 0 && x.c1.value() == 0 && y.c0.value() == 0 && y.c1.value() == 0 {
                lemma_be_int_zero(x.c0@);
                lemma_be_int_zero(x.c1@);
                lemma_be_int_zero(y.c0@);
                lemma_be_int_zero(y.c1@);
                assert(x.c0@ =~= zero_bytes(48));
                assert(x.c1@ =~= zero_bytes(48));
                assert(y.c0@ =~= zero_bytes(48));
                assert(y.c1@ =~= zero_bytes(48));
                assert(b@ =~= zero_bytes(256));
            }
        }
    }
    Ok(p)
}

/// Encodes a G2 point as its 256-byte wire form; infinity becomes the
/// all-zero sentinel.
pub fn encode_g2(p: &G2Point) -> (r: Vec<u8>)
    requires
        p.wf(),
    ensures
        r@ == p@,
        r@.len() == 256,
{
    match p {
        G2Point::Infinity => {
            let mut r: Vec<u8> = Vec::new();
            append_zero_bytes(&mut r, 256);
            proof {
                assert(r@ =~= zero_bytes(256));
            }
            r
        },
        G2Point::Affine { x, y } => {
            let mut r = encode_fq(&x.c0);
            let w1 = encode_fq(&x.c1);
            let w2 = encode_fq(&y.c0);
            let w3 = encode_fq(&y.c1);
            append_bytes(&mut r, w1.as_slice());
            append_bytes(&mut r, w2.as_slice());
            append_bytes(&mut r, w3.as_slice());
            proof {
                assert(r@ =~= p@);
            }
            r
        },
    }
}

/// The group sum of two decoded G1 operands at the wire level: the
/// all-zero sentinel is the identity; sums of affine points come from the
/// algebra boundary.
pub open spec fn g1_sum_full(a: Seq<u8>, b: Seq<u8>) -> Seq<u8> {
    if a == zero_bytes(128) {
        b
    } else if b == zero_bytes(128) {
        a
    } else {
        algebra::g1_sum(a, b)
    }
}

/// The scalar multiple of a decoded G1 operand at the wire level: any
/// multiple of the identity is the identity.
pub open spec fn g1_mul_full(p: Seq<u8>, e: nat) -> Seq<u8> {
    if p == zero_bytes(128) {
        zero_bytes(128)
    } else {
        algebra::g1_scalar_mul(p, e)
    }
}

/// The group sum of two decoded G2 operands at the wire level.
pub open spec fn g2_sum_full(a: Seq<u8>, b: Seq<u8>) -> Seq<u8> {
    if a == zero_bytes(256) {
        b
    } else if b == zero_bytes(256) {
        a
    } else {
        algebra::g2_sum(a, b)
    }
}

/// The scalar multiple of a decoded G2 operand at the wire level.
pub open spec fn g2_mul_full(p: Seq<u8>, e: nat) -> Seq<u8> {
    if p == zero_bytes(256) {
        zero_bytes(256)
    } else {
        algebra::g2_scalar_mul(p, e)
    }
}

/// A copy of a G1 point with the same wire form.
pub fn g1_point_dup(p: &G1Point) -> (r: G1Point)
    requires
        p.wf(),
    ensures
        r.wf(),
        r@ == p@,
        r.curve_ok() == p.curve_ok(),
{
    match p {
        G1Point::Infinity => G1Point::Infinity,
        G1Point::Affine { x, y } => G1Point::Affine {
            x: Fe { bytes: vstd::slice::slice_to_vec(x.bytes.as_slice()) },
            y: Fe { bytes: vstd::slice::slice_to_vec(y.bytes.as_slice()) },
        },
    }
}

/// A copy of a G2 point with the same wire form.
pub fn g2_point_dup(p: &G2Point) -> (r: G2Point)
    requires
        p.wf(),
    ensures
        r.wf(),
        r@ == p@,
        r.curve_ok() == p.curve_ok(),
{
    match p {
        G2Point::Infinity => G2Point::Infinity,
        G2Point::Affine { x, y } => G2Point::Affine {
            x: Fe2 {
                c0: Fe { bytes: vstd::slice::slice_to_vec(x.c0.bytes.as_slice()) },
                c1: Fe { bytes: vstd::slice::slice_to_vec(x.c1.bytes.as_slice()) },
            },
            y: Fe2 {
                c0: Fe { bytes: vstd::slice::slice_to_vec(y.c0.bytes.as_slice()) },
                c1: Fe { bytes: vstd::slice::slice_to_vec(y.c1.bytes.as_slice()) },
            },
        },
    }
}

/// Adds two validated G1 points: an infinity operand passes the other one
/// through; affine pairs go to the algebra boundary. The result is stated
/// for both operand orders: the group is abelian.
pub fn g1_point_add(a: &G1Point, b: &G1Point) -> (r: G1Point)
    requires
        a.wf(),
        b.wf(),
        a.curve_ok(),
        b.curve_ok(),
    ensures
        r.wf(),
        r.curve_ok(),
        r@ == g1_sum_full(a@, b@),
        r@ == g1_sum_full(b@, a@),
{
    match a {
        G1Point::Infinity => g1_point_dup(b),
        G1Point::Affine { x: ax, y: ay } => match b {
            G1Point::Infinity => g1_point_dup(a),
            G1Point::Affine { x: bx, y: by } => {
                proof {
                    lemma_g1_affine_not_zero(*ax, *ay);
                    lemma_g1_affine_not_zero(*bx, *by);
                }
                algebra::g1_add_points(ax, ay, bx, by)
            },
        },
    }
}

/// Multiplies a validated G1 point by a raw scalar: any multiple of
/// infinity is infinity; affine points go to the algebra boundary. Scalar 0
/// always yields the identity and scalar 1 the operand itself.
pub fn g1_point_mul(p: &G1Point, e: &Scalar) -> (r: G1Point)
    requires
        p.wf(),
        e.wf(),
        p.curve_ok(),
    ensures
        r.wf(),
        r.curve_ok(),
        r@ == g1_mul_full(p@, e.value()),
        e.value() == 0 ==> r@ == zero_bytes(128),
        e.value() == 1 ==> r@ == p@,
{
    match p {
        G1Point::Infinity => G1Point::Infinity,
        G1Point::Affine { x, y } => {
            proof {
                lemma_g1_affine_not_zero(*x, *y);
            }
            algebra::g1_mul_point(x, y, e)
        },
    }
}

/// Adds two validated G2 points, as for G1.
pub fn g2_point_add(a: &G2Point, b: &G2Point) -> (r: G2Point)
    requires
        a.wf(),
        b.wf(),
        a.curve_ok(),
        b.curve_ok(),
    ensures
        r.wf(),
        r.curve_ok(),
        r@ == g2_sum_full(a@, b@),
        r@ == g2_sum_full(b@, a@),
{
    match a {
        G2Point::Infinity => g2_point_dup(b),
        G2Point::Affine { x: ax, y: ay } => match b {
            G2Point::Infinity => g2_point_dup(a),
            G2Point::Affine { x: bx, y: by } => {
                proof {
                    lemma_g2_affine_not_zero(*ax, *ay);
                    lemma_g2_affine_not_zero(*bx, *by);
                }
                algebra::g2_add_points(ax, ay, bx, by)
            },
        },
    }
}

/// Multiplies a validated G2 point by a raw scalar, as for G1.
pub fn g2_point_mul(p: &G2Point, e: &Scalar) -> (r: G2Point)
    requires
        p.wf(),
        e.wf(),
        p.curve_ok(),
    ensures
        r.wf(),
        r.curve_ok(),
        r@ == g2_mul_full(p@, e.value()),
        e.value() == 0 ==> r@ == zero_bytes(256),
        e.value() == 1 ==> r@ == p@,
{
    match p {
        G2Point::Infinity => G2Point::Infinity,
        G2Point::Affine { x, y } => {
            proof {
                lemma_g2_affine_not_zero(*x, *y);
            }
            algebra::g2_mul_point(x, y, e)
        },
    }
}

/// Checks the curve equation of a decoded G1 operand; the infinity sentinel
/// is skipped, as the identity is not a curve solution.
pub fn check_g1_on_curve(p: &G1Point) -> (r: Result<(), PrecompileError>)
    requires
        p.wf(),
    ensures
        match r {
            Ok(()) => p.curve_ok(),
            Err(e) => !p.curve_ok() && e == PrecompileError::PointNotOnCurve,
        },
{
    match p {
        G1Point::Infinity => Ok(()),
        G1Point::Affine { x, y } => {
            if algebra::g1_check_on_curve(x, y) {
                Ok(())
            } else {
                Err(PrecompileError::PointNotOnCurve)
            }
        },
    }
}

/// Checks subgroup membership of an on-curve G1 operand; the infinity
/// sentinel is accepted without a check.
pub fn check_g1_subgroup(p: &G1Point) -> (r: Result<(), PrecompileError>)
    requires
        p.wf(),
        p.curve_ok(),
    ensures
        match r {
            Ok(()) => p.subgroup_ok(),
            Err(e) => !p.subgroup_ok() && e == PrecompileError::IncorrectSubgroup,
        },
{
    match p {
        G1Point::Infinity => Ok(()),
        G1Point::Affine { x, y } => {
            if algebra::g1_check_subgroup(x, y) {
                Ok(())
            } else {
                Err(PrecompileError::IncorrectSubgroup)
            }
        },
    }
}

/// Checks the curve equation of a decoded G2 operand.
pub fn check_g2_on_curve(p: &G2Point) -> (r: Result<(), PrecompileError>)
    requires
        p.wf(),
    ensures
        match r {
            Ok(()) => p.curve_ok(),
            Err(e) => !p.curve_ok() && e == PrecompileError::PointNotOnCurve,
        },
{
    match p {
        G2Point::Infinity => Ok(()),
        G2Point::Affine { x, y } => {
            if algebra::g2_check_on_curve(x, y) {
                Ok(())
            } else {
                Err(PrecompileError::PointNotOnCurve)
            }
        },
    }
}

/// Checks subgroup membership of an on-curve G2 operand.
pub fn check_g2_subgroup(p: &G2Point) -> (r: Result<(), PrecompileError>)
    requires
        p.wf(),
        p.curve_ok(),
    ensures
        match r {
            Ok(()) => p.subgroup_ok(),
            Err(e) => !p.subgroup_ok() && e == PrecompileError::IncorrectSubgroup,
        },
{
    match p {
        G2Point::Infinity => Ok(()),
        G2Point::Affine { x, y } => {
            if algebra::g2_check_subgroup(x, y) {
                Ok(())
            } else {
                Err(PrecompileError::IncorrectSubgroup)
            }
        },
    }
}

} // verus!
