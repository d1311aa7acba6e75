//! The seven precompile operations: each decodes its operands, validates
//! them in input order, computes, and encodes the result. The first rule
//! violated - whole-input length, then per operand encoding, curve, and
//! (pairing only) subgroup - is the single reported error.

use vstd::prelude::*;

use crate::bytes::{be_int, lemma_concat_split, zero_bytes};
use crate::errors::PrecompileError;
use crate::field::decode_fr;
use crate::point::{
    check_g1_on_curve, check_g2_on_curve, decode_g1, decode_g2, encode_g1, encode_g2, g1_mul_full,
    g1_operand_err, g1_point_add, g1_point_mul, g1_sum_full, g2_mul_full, g2_operand_err,
    g2_point_add, g2_point_mul, g2_sum_full, lemma_g1_affine_not_zero, lemma_g1_affine_view,
    lemma_g2_affine_not_zero, lemma_g2_affine_view, G1Point, G2Point,
};

verus! {

/// An operation result as mathematical values: the output bytes, or the
/// single reported error.
pub open spec fn result_bytes(r: Result<Vec<u8>, PrecompileError>) -> Result<
    Seq<u8>,
    PrecompileError,
> {
    match r {
        Ok(v) => Ok(v@),
        Err(e) => Err(e),
    }
}

/// What G1 addition returns for every input: a 256-byte input is two
/// 128-byte operands, validated left to right, and the output encodes their
/// group sum.
pub open spec fn spec_g1_add(input: Seq<u8>) -> Result<Seq<u8>, PrecompileError> {
    if input.len() != 256 {
        Err(PrecompileError::InvalidInputLength)
    } else {
        match g1_operand_err(input.subrange(0, 128)) {
            Some(e) => Err(e),
            None => match g1_operand_err(input.subrange(128, 256)) {
                Some(e) => Err(e),
                None => Ok(g1_sum_full(input.subrange(0, 128), input.subrange(128, 256))),
            },
        }
    }
}

/// A decoded, curve-checked G1 operand has no operand error.
pub(crate) proof fn lemma_g1_operand_ok(p: G1Point, b: Seq<u8>)
    requires
        p.wf(),
        p@ == b,
        p.curve_ok(),
        b.len() == 128,
    ensures
        g1_operand_err(b) is None,
{
    match p {
        G1Point::Infinity => {},
        G1Point::Affine { x, y } => {
            lemma_g1_affine_view(x, y);
        },
    }
}

/// A decoded G1 operand that fails the curve check has exactly the
/// not-on-curve operand error.
pub(crate) proof fn lemma_g1_operand_off_curve(p: G1Point, b: Seq<u8>)
    requires
        p.wf(),
        p@ == b,
        !p.curve_ok(),
        b.len() == 128,
    ensures
        g1_operand_err(b) == Some(PrecompileError::PointNotOnCurve),
{
    match p {
        G1Point::Infinity => {},
        G1Point::Affine { x, y } => {
            lemma_g1_affine_view(x, y);
            lemma_g1_affine_not_zero(x, y);
        },
    }
}

/// G1 addition. On a 256-byte input of two valid operands the output is the
/// 128-byte encoding of their sum; the result does not depend on the
/// operand order.
pub fn g1_add(input: &[u8]) -> (r: Result<Vec<u8>, PrecompileError>)
    ensures
        result_bytes(r) == spec_g1_add(input@),
        input@.len() != 256 ==> r == Err::<Vec<u8>, PrecompileError>(
            PrecompileError::InvalidInputLength,
        ),
        r matches Ok(o) ==> spec_g1_add(input@.subrange(128, 256) + input@.subrange(0, 128))
            == Ok::<Seq<u8>, PrecompileError>(o@),
        r matches Ok(o) ==> o@.len() == 128,
{
    if input.len() != 256 {
        return Err(PrecompileError::InvalidInputLength);
    }
    let a = decode_g1(vstd::slice::slice_subrange(input, 0, 128))?;
    match check_g1_on_curve(&a) {
        Ok(()) => proof {
            lemma_g1_operand_ok(a, input@.subrange(0, 128));
        },
        Err(e) => {
            proof {
                lemma_g1_operand_off_curve(a, input@.subrange(0, 128));
            }
            return Err(e);
        },
    }
    let b = decode_g1(vstd::slice::slice_subrange(input, 128, 256))?;
    match check_g1_on_curve(&b) {
        Ok(()) => proof {
            lemma_g1_operand_ok(b, input@.subrange(128, 256));
        },
        Err(e) => {
            proof {
                lemma_g1_operand_off_curve(b, input@.subrange(128, 256));
            }
            return Err(e);
        },
    }
    let s = g1_point_add(&a, &b);
    let out = encode_g1(&s);
    proof {
        lemma_concat_split(input@.subrange(128, 256), input@.subrange(0, 128));
    }
    Ok(out)
}

/// What G1 scalar multiplication returns for every input: a 160-byte input
/// is one 128-byte operand and one raw 32-byte scalar; only the point is
/// validated.
pub open spec fn spec_g1_mul(input: Seq<u8>) -> Result<Seq<u8>, PrecompileError> {
    if input.len() != 160 {
        Err(PrecompileError::InvalidInputLength)
    } else {
        match g1_operand_err(input.subrange(0, 128)) {
            Some(e) => Err(e),
            None => Ok(
                g1_mul_full(input.subrange(0, 128), be_int(input.subrange(128, 160))),
            ),
        }
    }
}

/// G1 scalar multiplication. Scalar 0 yields the infinity encoding and
/// scalar 1 returns the operand encoding unchanged.
pub fn g1_mul(input: &[u8]) -> (r: Result<Vec<u8>, PrecompileError>)
    ensures
        result_bytes(r) == spec_g1_mul(input@),
        input@.len() != 160 ==> r == Err::<Vec<u8>, PrecompileError>(
            PrecompileError::InvalidInputLength,
        ),
        r matches Ok(o) ==> (be_int(input@.subrange(128, 160)) == 0 ==> o@ == zero_bytes(128)),
        r matches Ok(o) ==> (be_int(input@.subrange(128, 160)) == 1 ==> o@ == input@.subrange(
            0,
            128,
        )),
        r matches Ok(o) ==> o@.len() == 128,
{
    if input.len() != 160 {
        return Err(PrecompileError::InvalidInputLength);
    }
    let p = decode_g1(vstd::slice::slice_subrange(input, 0, 128))?;
    match check_g1_on_curve(&p) {
        Ok(()) => proof {
            lemma_g1_operand_ok(p, input@.subrange(0, 128));
        },
        Err(e) => {
            proof {
                lemma_g1_operand_off_curve(p, input@.subrange(0, 128));
            }
            return Err(e);
        },
    }
    let e = decode_fr(vstd::slice::slice_subrange(input, 128, 160));
    let s = g1_point_mul(&p, &e);
    let out = encode_g1(&s);
    Ok(out)
}

/// The i-th point operand of a G1 multi-scalar-multiplication input.
pub open spec fn g1_pair_point(input: Seq<u8>, i: int) -> Seq<u8> {
    input.subrange(160 * i, 160 * i + 128)
}

/// The i-th raw scalar of a G1 multi-scalar-multiplication input.
pub open spec fn g1_pair_scalar(input: Seq<u8>, i: int) -> nat {
    be_int(input.subrange(160 * i + 128, 160 * i + 160))
}

/// The first operand error among the first n (point, scalar) pairs,
/// scanning in input order; scalars cannot fail.
pub open spec fn g1_multiexp_err_upto(input: Seq<u8>, n: int) -> Option<PrecompileError>
    decreases n,
{
    if n <= 0 {
        None
    } else {
        match g1_multiexp_err_upto(input, n - 1) {
            Some(e) => Some(e),
            None => g1_operand_err(g1_pair_point(input, n - 1)),
        }
    }
}

/// The accumulated sum of the first n terms scalar_i * point_i, starting
/// from the identity.
pub open spec fn g1_multiexp_acc(input: Seq<u8>, n: int) -> Seq<u8>
    decreases n,
{
    if n <= 0 {
        zero_bytes(128)
    } else {
        g1_sum_full(
            g1_multiexp_acc(input, n - 1),
            g1_mul_full(g1_pair_point(input, n - 1), g1_pair_scalar(input, n - 1)),
        )
    }
}

/// What G1 multi-scalar-multiplication returns for every input: k >= 1
/// pairs of 160 bytes each, every point validated in input order before any
/// arithmetic, and the output encoding their accumulated sum.
pub open spec fn spec_g1_multiexp(input: Seq<u8>) -> Result<Seq<u8>, PrecompileError> {
    if input.len() == 0 || input.len() % 160 != 0 {
        Err(PrecompileError::InvalidInputLength)
    } else {
        let k = (input.len() / 160) as int;
        match g1_multiexp_err_upto(input, k) {
            Some(e) => Err(e),
            None => Ok(g1_multiexp_acc(input, k)),
        }
    }
}

/// The first reported operand error does not change once found: scanning
/// further pairs cannot replace it.
proof fn lemma_g1_multiexp_err_persists(input: Seq<u8>, n: int, m: int)
    requires
        0 <= n <= m,
        g1_multiexp_err_upto(input, n) is Some,
    ensures
        g1_multiexp_err_upto(input, m) == g1_multiexp_err_upto(input, n),
    decreases m - n,
{
    if m > n {
        lemma_g1_multiexp_err_persists(input, n, m - 1);
    }
}

/// G1 multi-scalar multiplication. Every point is validated, in input
/// order, before any arithmetic; the output encodes the sum of all
/// scalar_i * point_i.
pub fn g1_multiexp(input: &[u8]) -> (r: Result<Vec<u8>, PrecompileError>)
    ensures
        result_bytes(r) == spec_g1_multiexp(input@),
        input@.len() == 0 || input@.len() % 160 != 0 ==> r == Err::<Vec<u8>, PrecompileError>(
            PrecompileError::InvalidInputLength,
        ),
        r matches Ok(o) ==> o@.len() == 128,
{
    let n: usize = input.len();
    if n == 0 || n % 160 != 0 {
        return Err(PrecompileError::InvalidInputLength);
    }
    let k: usize = n / 160;
    proof {
        assert(n == 160 * k);
    }
    let mut points: Vec<G1Point> = Vec::new();
    let mut scalars: Vec<crate::field::Scalar> = Vec::new();
    let mut i: usize = 0;
    while i < k
        invariant
            0 <= i <= k,
            n == input@.len(),
            n == 160 * k,
            points@.len() == i,
            scalars@.len() == i,
            g1_multiexp_err_upto(input@, i as int) is None,
            forall|j: int|
                0 <= j < i ==> (#[trigger] points@[j]).wf() && points@[j].curve_ok()
                    && points@[j]@ == g1_pair_point(input@, j),
            forall|j: int|
                0 <= j < i ==> (#[trigger] scalars@[j]).wf() && scalars@[j].value()
                    == g1_pair_scalar(input@, j),
        decreases k - i,
    {
        let off: usize = i * 160;
        proof {
            assert(off + 160 <= n);
        }
        let p = match decode_g1(vstd::slice::slice_subrange(input, off, off + 128)) {
            Ok(p) => p,
            Err(e) => {
                proof {
                    lemma_g1_multiexp_err_persists(input@, i as int + 1, k as int);
                }
                return Err(e);
            },
        };
        match check_g1_on_curve(&p) {
            Ok(()) => proof {
                lemma_g1_operand_ok(p, g1_pair_point(input@, i as int));
            },
            Err(e) => {
                proof {
                    lemma_g1_operand_off_curve(p, g1_pair_point(input@, i as int));
                    lemma_g1_multiexp_err_persists(input@, i as int + 1, k as int);
                }
                return Err(e);
            },
        }
        let e = decode_fr(vstd::slice::slice_subrange(input, off + 128, off + 160));
        points.push(p);
        scalars.push(e);
        i = i + 1;
    }
    let mut acc = G1Point::Infinity;
    let mut i: usize = 0;
    while i < k
        invariant
            0 <= i <= k,
            n == input@.len(),
            n == 160 * k,
            points@.len() == k,
            scalars@.len() == k,
            acc.wf(),
            acc.curve_ok(),
            acc@ == g1_multiexp_acc(input@, i as int),
            forall|j: int|
                0 <= j < k ==> (#[trigger] points@[j]).wf() && points@[j].curve_ok()
                    && points@[j]@ == g1_pair_point(input@, j),
            forall|j: int|
                0 <= j < k ==> (#[trigger] scalars@[j]).wf() && scalars@[j].value()
                    == g1_pair_scalar(input@, j),
        decreases k - i,
    {
        let term = g1_point_mul(&points[i], &scalars[i]);
        acc = g1_point_add(&acc, &term);
        i = i + 1;
    }
    let out = encode_g1(&acc);
    Ok(out)
}

/// What G2 addition returns for every input: a 512-byte input is two
/// 256-byte operands, validated left to right.
pub open spec fn spec_g2_add(input: Seq<u8>) -> Result<Seq<u8>, PrecompileError> {
    if input.len() != 512 {
        Err(PrecompileError::InvalidInputLength)
    } else {
        match g2_operand_err(input.subrange(0, 256)) {
            Some(e) => Err(e),
            None => match g2_operand_err(input.subrange(256, 512)) {
                Some(e) => Err(e),
                None => Ok(g2_sum_full(input.subrange(0, 256), input.subrange(256, 512))),
            },
        }
    }
}

/// A decoded, curve-checked G2 operand has no operand error.
pub(crate) proof fn lemma_g2_operand_ok(p: G2Point, b: Seq<u8>)
    requires
        p.wf(),
        p@ == b,
        p.curve_ok(),
        b.len() == 256,
    ensures
        g2_operand_err(b) is None,
{
    match p {
        G2Point::Infinity => {},
        G2Point::Affine { x, y } => {
            lemma_g2_affine_view(x, y);
        },
    }
}

/// A decoded G2 operand that fails the curve check has exactly the
/// not-on-curve operand error.
pub(crate) proof fn lemma_g2_operand_off_curve(p: G2Point, b: Seq<u8>)
    requires
        p.wf(),
        p@ == b,
        !p.curve_ok(),
        b.len() == 256,
    ensures
        g2_operand_err(b) == Some(PrecompileError::PointNotOnCurve),
{
    match p {
        G2Point::Infinity => {},
        G2Point::Affine { x, y } => {
            lemma_g2_affine_view(x, y);
            lemma_g2_affine_not_zero(x, y);
        },
    }
}

/// G2 addition, as for G1.
pub fn g2_add(input: &[u8]) -> (r: Result<Vec<u8>, PrecompileError>)
    ensures
        result_bytes(r) == spec_g2_add(input@),
        input@.len() != 512 ==> r == Err::<Vec<u8>, PrecompileError>(
            PrecompileError::InvalidInputLength,
        ),
        r matches Ok(o) ==> spec_g2_add(input@.subrange(256, 512) + input@.subrange(0, 256))
            == Ok::<Seq<u8>, PrecompileError>(o@),
        r matches Ok(o) ==> o@.len() == 256,
{
    if input.len() != 512 {
        return Err(PrecompileError::InvalidInputLength);
    }
    let a = decode_g2(vstd::slice::slice_subrange(input, 0, 256))?;
    match check_g2_on_curve(&a) {
        Ok(()) => proof {
            lemma_g2_operand_ok(a, input@.subrange(0, 256));
        },
        Err(e) => {
            proof {
                lemma_g2_operand_off_curve(a, input@.subrange(0, 256));
            }
            return Err(e);
        },
    }
    let b = decode_g2(vstd::slice::slice_subrange(input, 256, 512))?;
    match check_g2_on_curve(&b) {
        Ok(()) => proof {
            lemma_g2_operand_ok(b, input@.subrange(256, 512));
        },
        Err(e) => {
            proof {
                lemma_g2_operand_off_curve(b, input@.subrange(256, 512));
            }
            return Err(e);
        },
    }
    let s = g2_point_add(&a, &b);
    let out = encode_g2(&s);
    proof {
        lemma_concat_split(input@.subrange(256, 512), input@.subrange(0, 256));
    }
    Ok(out)
}

/// What G2 scalar multiplication returns for every input: a 288-byte input
/// is one 256-byte operand and one raw 32-byte scalar.
pub open spec fn spec_g2_mul(input: Seq<u8>) -> Result<Seq<u8>, PrecompileError> {
    if input.len() != 288 {
        Err(PrecompileError::InvalidInputLength)
    } else {
        match g2_operand_err(input.subrange(0, 256)) {
            Some(e) => Err(e),
            None => Ok(
                g2_mul_full(input.subrange(0, 256), be_int(input.subrange(256, 288))),
            ),
        }
    }
}

/// G2 scalar multiplication, as for G1.
pub fn g2_mul(input: &[u8]) -> (r: Result<Vec<u8>, PrecompileError>)
    ensures
        result_bytes(r) == spec_g2_mul(input@),
        input@.len() != 288 ==> r == Err::<Vec<u8>, PrecompileError>(
            PrecompileError::InvalidInputLength,
        ),
        r matches Ok(o) ==> (be_int(input@.subrange(256, 288)) == 0 ==> o@ == zero_bytes(256)),
        r matches Ok(o) ==> (be_int(input@.subrange(256, 288)) == 1 ==> o@ == input@.subrange(
            0,
            256,
        )),
        r matches Ok(o) ==> o@.len() == 256,
{
    if input.len() != 288 {
        return Err(PrecompileError::InvalidInputLength);
    }
    let p = decode_g2(vstd::slice::slice_subrange(input, 0, 256))?;
    match check_g2_on_curve(&p) {
        Ok(()) => proof {
            lemma_g2_operand_ok(p, input@.subrange(0, 256));
        },
        Err(e) => {
            proof {
                lemma_g2_operand_off_curve(p, input@.subrange(0, 256));
            }
            return Err(e);
        },
    }
    let e = decode_fr(vstd::slice::slice_subrange(input, 256, 288));
    let s = g2_point_mul(&p, &e);
    let out = encode_g2(&s);
    Ok(out)
}

/// The i-th point operand of a G2 multi-scalar-multiplication input.
pub open spec fn g2_pair_point(input: Seq<u8>, i: int) -> Seq<u8> {
    input.subrange(288 * i, 288 * i + 256)
}

/// The i-th raw scalar of a G2 multi-scalar-multiplication input.
pub open spec fn g2_pair_scalar(input: Seq<u8>, i: int) -> nat {
    be_int(input.subrange(288 * i + 256, 288 * i + 288))
}

/// The first operand error among the first n (point, scalar) pairs.
pub open spec fn g2_multiexp_err_upto(input: Seq<u8>, n: int) -> Option<PrecompileError>
    decreases n,
{
    if n <= 0 {
        None
    } else {
        match g2_multiexp_err_upto(input, n - 1) {
            Some(e) => Some(e),
            None => g2_operand_err(g2_pair_point(input, n - 1)),
        }
    }
}

/// The accumulated sum of the first n terms scalar_i * point_i.
pub open spec fn g2_multiexp_acc(input: Seq<u8>, n: int) -> Seq<u8>
    decreases n,
{
    if n <= 0 {
        zero_bytes(256)
    } else {
        g2_sum_full(
            g2_multiexp_acc(input, n - 1),
            g2_mul_full(g2_pair_point(input, n - 1), g2_pair_scalar(input, n - 1)),
        )
    }
}

/// What G2 multi-scalar-multiplication returns for every input: k >= 1
/// pairs of 288 bytes each.
pub open spec fn spec_g2_multiexp(input: Seq<u8>) -> Result<Seq<u8>, PrecompileError> {
    if input.len() == 0 || input.len() % 288 != 0 {
        Err(PrecompileError::InvalidInputLength)
    } else {
        let k = (input.len() / 288) as int;
        match g2_multiexp_err_upto(input, k) {
            Some(e) => Err(e),
            None => Ok(g2_multiexp_acc(input, k)),
        }
    }
}

proof fn lemma_g2_multiexp_err_persists(input: Seq<u8>, n: int, m: int)
    requires
        0 <= n <= m,
        g2_multiexp_err_upto(input, n) is Some,
    ensures
        g2_multiexp_err_upto(input, m) == g2_multiexp_err_upto(input, n),
    decreases m - n,
{
    if m > n {
        lemma_g2_multiexp_err_persists(input, n, m - 1);
    }
}

/// G2 multi-scalar multiplication, as for G1.
pub fn g2_multiexp(input: &[u8]) -> (r: Result<Vec<u8>, PrecompileError>)
    ensures
        result_bytes(r) == spec_g2_multiexp(input@),
        input@.len() == 0 || input@.len() % 288 != 0 ==> r == Err::<Vec<u8>, PrecompileError>(
            PrecompileError::InvalidInputLength,
        ),
        r matches Ok(o) ==> o@.len() == 256,
{
    let n: usize = input.len();
    if n == 0 || n % 288 != 0 {
        return Err(PrecompileError::InvalidInputLength);
    }
    let k: usize = n / 288;
    proof {
        assert(n == 288 * k);
    }
    let mut points: Vec<G2Point> = Vec::new();
    let mut scalars: Vec<crate::field::Scalar> = Vec::new();
    let mut i: usize = 0;
    while i < k
        invariant
            0 <= i <= k,
            n == input@.len(),
            n == 288 * k,
            points@.len() == i,
            scalars@.len() == i,
            g2_multiexp_err_upto(input@, i as int) is None,
            forall|j: int|
                0 <= j < i ==> (#[trigger] points@[j]).wf() && points@[j].curve_ok()
                    && points@[j]@ == g2_pair_point(input@, j),
            forall|j: int|
                0 <= j < i ==> (#[trigger] scalars@[j]).wf() && scalars@[j].value()
                    == g2_pair_scalar(input@, j),
        decreases k - i,
    {
        let off: usize = i * 288;
        proof {
            assert(off + 288 <= n);
        }
        let p = match decode_g2(vstd::slice::slice_subrange(input, off, off + 256)) {
            Ok(p) => p,
            Err(e) => {
                proof {
                    lemma_g2_multiexp_err_persists(input@, i as int + 1, k as int);
                }
                return Err(e);
            },
        };
        match check_g2_on_curve(&p) {
            Ok(()) => proof {
                lemma_g2_operand_ok(p, g2_pair_point(input@, i as int));
            },
            Err(e) => {
                proof {
                    lemma_g2_operand_off_curve(p, g2_pair_point(input@, i as int));
                    lemma_g2_multiexp_err_persists(input@, i as int + 1, k as int);
                }
                return Err(e);
            },
        }
        let e = decode_fr(vstd::slice::slice_subrange(input, off + 256, off + 288));
        points.push(p);
        scalars.push(e);
        i = i + 1;
    }
    let mut acc = G2Point::Infinity;
    let mut i: usize = 0;
    while i < k
        invariant
            0 <= i <= k,
            n == input@.len(),
            n == 288 * k,
            points@.len() == k,
            scalars@.len() == k,
            acc.wf(),
            acc.curve_ok(),
            acc@ == g2_multiexp_acc(input@, i as int),
            forall|j: int|
                0 <= j < k ==> (#[trigger] points@[j]).wf() && points@[j].curve_ok()
                    && points@[j]@ == g2_pair_point(input@, j),
            forall|j: int|
                0 <= j < k ==> (#[trigger] scalars@[j]).wf() && scalars@[j].value()
                    == g2_pair_scalar(input@, j),
        decreases k - i,
    {
        let term = g2_point_mul(&points[i], &scalars[i]);
        acc = g2_point_add(&acc, &term);
        i = i + 1;
    }
    let out = encode_g2(&acc);
    Ok(out)
}

} // verus!
