use vstd::prelude::*;

verus! {

/// The four terminal failures of an operation. Exactly one is reported per
/// call: the first rule violated when the input is scanned in validation
/// order (whole-input length, then per operand: encoding, curve membership,
/// and - for the pairing operation only - subgroup membership).
#[derive(Clone, Copy, Debug, PartialEq, Eq, Structural)]
pub enum PrecompileError {
    /// The total byte length does not match the operation's formula.
    InvalidInputLength,
    /// A 64-byte field word has a non-zero byte among its top 16 padding
    /// bytes, or its low 48 bytes encode a value not below the field modulus.
    InvalidFieldEncoding,
    /// A non-infinity operand point does not satisfy the curve equation.
    PointNotOnCurve,
    /// A pairing operand point is on the curve but outside the prime-order
    /// subgroup.
    IncorrectSubgroup,
}

} // verus!
