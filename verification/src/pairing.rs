//! The pairing operation: multi-pair accumulation of the bilinear map with
//! a single final identity test.

use vstd::prelude::*;

use crate::algebra::{pair_bytes, pairing_product_is_one, pairs_bytes, PairingPair};
use crate::bytes::{append_zero_bytes, zero_bytes};
use crate::errors::PrecompileError;
use crate::ops::result_bytes;
use crate::point::{
    check_g1_on_curve, check_g1_subgroup, check_g2_on_curve, check_g2_subgroup, decode_g1,
    decode_g2, g1_pairing_operand_err, g2_pairing_operand_err, lemma_g1_affine_not_zero,
    lemma_g1_affine_view, lemma_g2_affine_not_zero, lemma_g2_affine_view, G1Point, G2Point,
};

verus! {

/// The 32-byte big-endian encoding of 1: the output of a successful pairing
/// check.
pub open spec fn one_bytes32() -> Seq<u8> {
    zero_bytes(31).push(1u8)
}

/// The G1 side of the i-th pairing operand pair.
pub open spec fn pairing_pair_g1(input: Seq<u8>, i: int) -> Seq<u8> {
    input.subrange(384 * i, 384 * i + 128)
}

/// The G2 side of the i-th pairing operand pair.
pub open spec fn pairing_pair_g2(input: Seq<u8>, i: int) -> Seq<u8> {
    input.subrange(384 * i + 128, 384 * i + 384)
}

/// The first failure of the i-th pair: its G1 operand in full (encoding,
/// curve, subgroup), then its G2 operand.
pub open spec fn pairing_pair_err(input: Seq<u8>, i: int) -> Option<PrecompileError> {
    match g1_pairing_operand_err(pairing_pair_g1(input, i)) {
        Some(e) => Some(e),
        None => g2_pairing_operand_err(pairing_pair_g2(input, i)),
    }
}

/// The first failure among the first n pairs, scanning in input order.
pub open spec fn pairing_err_upto(input: Seq<u8>, n: int) -> Option<PrecompileError>
    decreases n,
{
    if n <= 0 {
        None
    } else {
        match pairing_err_upto(input, n - 1) {
            Some(e) => Some(e),
            None => pairing_pair_err(input, n - 1),
        }
    }
}

/// The wire forms of those of the first n pairs with two finite sides, in
/// input order; a pair with an infinity operand contributes the trivial
/// factor and is dropped from the product.
pub open spec fn pairing_active_upto(input: Seq<u8>, n: int) -> Seq<Seq<u8>>
    decreases n,
{
    if n <= 0 {
        Seq::empty()
    } else {
        let rest = pairing_active_upto(input, n - 1);
        if pairing_pair_g1(input, n - 1) == zero_bytes(128) || pairing_pair_g2(input, n - 1)
            == zero_bytes(256) {
            rest
        } else {
            rest.push(input.subrange(384 * (n - 1), 384 * n))
        }
    }
}

/// What the pairing check returns for every input: k >= 1 pairs of 384
/// bytes each, every operand validated in input order (encoding, curve,
/// subgroup), and 32 bytes encoding 1 exactly when the product of the
/// pairings of the pairs with two finite sides is the identity - in
/// particular when every pair has an infinity side.
pub open spec fn spec_pairing(input: Seq<u8>) -> Result<Seq<u8>, PrecompileError> {
    if input.len() == 0 || input.len() % 384 != 0 {
        Err(PrecompileError::InvalidInputLength)
    } else {
        let k = (input.len() / 384) as int;
        match pairing_err_upto(input, k) {
            Some(e) => Err(e),
            None => {
                let active = pairing_active_upto(input, k);
                if active.len() == 0 {
                    Ok(one_bytes32())
                } else if pairing_product_is_one(active) {
                    Ok(one_bytes32())
                } else {
                    Ok(zero_bytes(32))
                }
            },
        }
    }
}

proof fn lemma_pairing_err_persists(input: Seq<u8>, n: int, m: int)
    requires
        0 <= n <= m,
        pairing_err_upto(input, n) is Some,
    ensures
        pairing_err_upto(input, m) == pairing_err_upto(input, n),
    decreases m - n,
{
    if m > n {
        lemma_pairing_err_persists(input, n, m - 1);
    }
}

/// A validated G1 pairing operand passes all three of its checks.
proof fn lemma_g1_pairing_operand_ok(p: G1Point, b: Seq<u8>)
    requires
        p.wf(),
        p@ == b,
        p.curve_ok(),
        p.subgroup_ok(),
        b.len() == 128,
    ensures
        g1_pairing_operand_err(b) is None,
{
    match p {
        G1Point::Infinity => {},
        G1Point::Affine { x, y } => {
            lemma_g1_affine_view(x, y);
        },
    }
}

/// A G1 operand that is on the curve but fails the subgroup check reports
/// exactly the subgroup error.
proof fn lemma_g1_pairing_operand_foreign(p: G1Point, b: Seq<u8>)
    requires
        p.wf(),
        p@ == b,
        p.curve_ok(),
        !p.subgroup_ok(),
        b.len() == 128,
    ensures
        g1_pairing_operand_err(b) == Some(PrecompileError::IncorrectSubgroup),
{
    match p {
        G1Point::Infinity => {},
        G1Point::Affine { x, y } => {
            lemma_g1_affine_view(x, y);
            lemma_g1_affine_not_zero(x, y);
        },
    }
}

/// A validated G2 pairing operand passes all three of its checks.
proof fn lemma_g2_pairing_operand_ok(p: G2Point, b: Seq<u8>)
    requires
        p.wf(),
        p@ == b,
        p.curve_ok(),
        p.subgroup_ok(),
        b.len() == 256,
    ensures
        g2_pairing_operand_err(b) is None,
{
    match p {
        G2Point::Infinity => {},
        G2Point::Affine { x, y } => {
            lemma_g2_affine_view(x, y);
        },
    }
}

/// A G2 operand that is on the curve but fails the subgroup check reports
/// exactly the subgroup error.
proof fn lemma_g2_pairing_operand_foreign(p: G2Point, b: Seq<u8>)
    requires
        p.wf(),
        p@ == b,
        p.curve_ok(),
        !p.subgroup_ok(),
        b.len() == 256,
    ensures
        g2_pairing_operand_err(b) == Some(PrecompileError::IncorrectSubgroup),
{
    match p {
        G2Point::Infinity => {},
        G2Point::Affine { x, y } => {
            lemma_g2_affine_view(x, y);
            lemma_g2_affine_not_zero(x, y);
        },
    }
}

/// The 32-byte big-endian encoding of 1, as a vector.
fn one_bytes_vec() -> (r: Vec<u8>)
    ensures
        r@ == one_bytes32(),
{
    let mut r: Vec<u8> = Vec::new();
    append_zero_bytes(&mut r, 31);
    r.push(1u8);
    proof {
        assert(r@ =~= one_bytes32());
    }
    r
}

/// The pairing check. Decodes k (G1, G2) pairs, validates every operand in
/// input order - encoding, curve equation, and subgroup membership, the
/// infinity sentinel passing all three - and outputs a 32-byte big-endian 1
/// if the product of the pairings is the identity, else a 32-byte 0.
pub fn pairing(input: &[u8]) -> (r: Result<Vec<u8>, PrecompileError>)
    ensures
        result_bytes(r) == spec_pairing(input@),
        input@.len() == 0 || input@.len() % 384 != 0 ==> r == Err::<Vec<u8>, PrecompileError>(
            PrecompileError::InvalidInputLength,
        ),
        r matches Ok(o) ==> o@.len() == 32,
{
    let n: usize = input.len();
    if n == 0 || n % 384 != 0 {
        return Err(PrecompileError::InvalidInputLength);
    }
    let k: usize = n / 384;
    proof {
        assert(n == 384 * k);
    }
    let mut entries: Vec<PairingPair> = Vec::new();
    let mut i: usize = 0;
    while i < k
        invariant
            0 <= i <= k,
            n == input@.len(),
            n == 384 * k,
            pairing_err_upto(input@, i as int) is None,
            pairs_bytes(entries@) == pairing_active_upto(input@, i as int),
            forall|j: int|
                0 <= j < entries@.len() ==> crate::algebra::pair_valid(#[trigger] entries@[j]),
        decreases k - i,
    {
        let off: usize = i * 384;
        proof {
            assert(off + 384 <= n);
        }
        let p = match decode_g1(vstd::slice::slice_subrange(input, off, off + 128)) {
            Ok(p) => p,
            Err(e) => {
                proof {
                    lemma_pairing_err_persists(input@, i as int + 1, k as int);
                }
                return Err(e);
            },
        };
        match check_g1_on_curve(&p) {
            Ok(()) => {},
            Err(e) => {
                proof {
                    crate::ops::lemma_g1_operand_off_curve(p, pairing_pair_g1(input@, i as int));
                    lemma_pairing_err_persists(input@, i as int + 1, k as int);
                }
                return Err(e);
            },
        }
        match check_g1_subgroup(&p) {
            Ok(()) => proof {
                lemma_g1_pairing_operand_ok(p, pairing_pair_g1(input@, i as int));
            },
            Err(e) => {
                proof {
                    lemma_g1_pairing_operand_foreign(p, pairing_pair_g1(input@, i as int));
                    lemma_pairing_err_persists(input@, i as int + 1, k as int);
                }
                return Err(e);
            },
        }
        let q = match decode_g2(vstd::slice::slice_subrange(input, off + 128, off + 384)) {
            Ok(q) => q,
            Err(e) => {
                proof {
                    lemma_pairing_err_persists(input@, i as int + 1, k as int);
                }
                return Err(e);
            },
        };
        match check_g2_on_curve(&q) {
            Ok(()) => {},
            Err(e) => {
                proof {
                    crate::ops::lemma_g2_operand_off_curve(q, pairing_pair_g2(input@, i as int));
                    lemma_pairing_err_persists(input@, i as int + 1, k as int);
                }
                return Err(e);
            },
        }
        match check_g2_subgroup(&q) {
            Ok(()) => proof {
                lemma_g2_pairing_operand_ok(q, pairing_pair_g2(input@, i as int));
            },
            Err(e) => {
                proof {
                    lemma_g2_pairing_operand_foreign(q, pairing_pair_g2(input@, i as int));
                    lemma_pairing_err_persists(input@, i as int + 1, k as int);
                }
                return Err(e);
            },
        }
        let ghost old_entries = entries@;
        match (p, q) {
            (G1Point::Affine { x: ax, y: ay }, G2Point::Affine { x: bx, y: by }) => {
                proof {
                    lemma_g1_affine_view(ax, ay);
                    lemma_g2_affine_view(bx, by);
                    lemma_g1_affine_not_zero(ax, ay);
                    lemma_g2_affine_not_zero(bx, by);
                }
                let entry = PairingPair { a_x: ax, a_y: ay, b_x: bx, b_y: by };
                proof {
                    assert(pair_bytes(entry) =~= input@.subrange(
                        384 * (i as int),
                        384 * (i as int + 1),
                    ));
                }
                entries.push(entry);
                proof {
                    assert(pairs_bytes(entries@) =~= pairs_bytes(old_entries).push(
                        pair_bytes(entry),
                    ));
                }
            },
            _ => {},
        }
        i = i + 1;
    }
    if entries.len() == 0 {
        return Ok(one_bytes_vec());
    }
    let good = crate::algebra::pairing_check(&entries);
    if good {
        Ok(one_bytes_vec())
    } else {
        let mut out: Vec<u8> = Vec::new();
        append_zero_bytes(&mut out, 32);
        proof {
            assert(out@ =~= zero_bytes(32));
        }
        Ok(out)
    }
}

} // verus!
