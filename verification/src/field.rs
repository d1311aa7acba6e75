use vstd::prelude::*;

use crate::bytes::{
    append_bytes, append_zero_bytes, be_bytes_lt, be_int, bytes_all_zero, zero_bytes,
};
use crate::errors::PrecompileError;

verus! {

/// The 48 big-endian bytes of the base-field modulus
/// 0x01ae3a4617c510eac63b05c06ca1493b1a22d9f300f5138f1ef3622fba094800170b5d44300000008508c00000000001.
pub open spec fn q_bytes() -> Seq<u8> {
    seq![
        0x01u8, 0xae, 0x3a, 0x46, 0x17, 0xc5, 0x10, 0xea, 0xc6, 0x3b, 0x05, 0xc0, 0x6c, 0xa1, 0x49,
        0x3b, 0x1a, 0x22, 0xd9, 0xf3, 0x00, 0xf5, 0x13, 0x8f, 0x1e, 0xf3, 0x62, 0x2f, 0xba, 0x09,
        0x48, 0x00, 0x17, 0x0b, 0x5d, 0x44, 0x30, 0x00, 0x00, 0x00, 0x85, 0x08, 0xc0, 0x00, 0x00,
        0x00, 0x00, 0x01,
    ]
}

/// The base-field modulus as an integer.
pub open spec fn q() -> nat {
    be_int(q_bytes())
}

/// A canonical 64-byte field word: 16 zero padding bytes, then 48 value
/// bytes denoting an integer below the modulus.
pub open spec fn word_ok(w: Seq<u8>) -> bool {
    &&& w.len() == 64
    &&& w.subrange(0, 16) == zero_bytes(16)
    &&& be_int(w.subrange(16, 64)) < q()
}

/// The value bytes of a 64-byte field word.
pub open spec fn word_value(w: Seq<u8>) -> Seq<u8> {
    w.subrange(16, 64)
}

/// The 64-byte wire form of 48 value bytes.
pub open spec fn fq_word(v: Seq<u8>) -> Seq<u8> {
    zero_bytes(16) + v
}

/// A base-field element, held as its canonical 48 big-endian value bytes.
#[derive(Clone, Debug, PartialEq, Eq)]
pub struct Fe {
    pub bytes: Vec<u8>,
}

impl View for Fe {
    type V = Seq<u8>;

    open spec fn view(&self) -> Seq<u8> {
        self.bytes@
    }
}

impl Fe {
    /// 48 value bytes, below the modulus.
    pub open spec fn wf(&self) -> bool {
        self@.len() == 48 && be_int(self@) < q()
    }

    /// The integer the element denotes.
    pub open spec fn value(&self) -> nat {
        be_int(self@)
    }
}

/// A quadratic-extension element c0 + c1*u, each coefficient a base-field
/// element. Its wire view is the two concatenated 64-byte words.
#[derive(Clone, Debug, PartialEq, Eq)]
pub struct Fe2 {
    pub c0: Fe,
    pub c1: Fe,
}

impl View for Fe2 {
    type V = Seq<u8>;

    open spec fn view(&self) -> Seq<u8> {
        fq_word(self.c0@) + fq_word(self.c1@)
    }
}

impl Fe2 {
    pub open spec fn wf(&self) -> bool {
        self.c0.wf() && self.c1.wf()
    }
}

/// A 32-byte big-endian scalar. Any 256-bit value is accepted; scalar
/// multiplication uses the integer value directly.
#[derive(Clone, Debug, PartialEq, Eq)]
pub struct Scalar {
    pub bytes: Vec<u8>,
}

impl View for Scalar {
    type V = Seq<u8>;

    open spec fn view(&self) -> Seq<u8> {
        self.bytes@
    }
}

impl Scalar {
    pub open spec fn wf(&self) -> bool {
        self@.len() == 32
    }

    /// The integer the scalar denotes.
    pub open spec fn value(&self) -> nat {
        be_int(self@)
    }
}

/// The modulus as a 48-byte big-endian vector.
pub fn modulus_be_bytes() -> (r: Vec<u8>)
    ensures
        r@ == q_bytes(),
{
    let r: Vec<u8> = vec![
        0x01u8, 0xae, 0x3a, 0x46, 0x17, 0xc5, 0x10, 0xea, 0xc6, 0x3b, 0x05, 0xc0, 0x6c, 0xa1, 0x49,
        0x3b, 0x1a, 0x22, 0xd9, 0xf3, 0x00, 0xf5, 0x13, 0x8f, 0x1e, 0xf3, 0x62, 0x2f, 0xba, 0x09,
        0x48, 0x00, 0x17, 0x0b, 0x5d, 0x44, 0x30, 0x00, 0x00, 0x00, 0x85, 0x08, 0xc0, 0x00, 0x00,
        0x00, 0x00, 0x01,
    ];
    proof {
        assert(r@ =~= q_bytes());
    }
    r
}

/// Decodes a 64-byte field word: the 16 padding bytes must be zero and the
/// 48 value bytes must denote an integer below the modulus, else the word is
/// rejected as `InvalidFieldEncoding`.
pub fn decode_fq(word: &[u8]) -> (r: Result<Fe, PrecompileError>)
    requires
        word@.len() == 64,
    ensures
        match r {
            Ok(f) => word_ok(word@) && f@ == word_value(word@) && f.wf(),
            Err(e) => !word_ok(word@) && e == PrecompileError::InvalidFieldEncoding,
        },
{
    let padding = vstd::slice::slice_subrange(word, 0, 16);
    if !bytes_all_zero(padding) {
        return Err(PrecompileError::InvalidFieldEncoding);
    }
    let value = vstd::slice::slice_subrange(word, 16, 64);
    let modulus = modulus_be_bytes();
    if !be_bytes_lt(value, modulus.as_slice()) {
        return Err(PrecompileError::InvalidFieldEncoding);
    }
    Ok(Fe { bytes: vstd::slice::slice_to_vec(value) })
}

/// Encodes a base-field element as its 64-byte wire word.
pub fn encode_fq(f: &Fe) -> (r: Vec<u8>)
    requires
        f.wf(),
    ensures
        r@ == fq_word(f@),
        word_ok(r@),
{
    let mut r: Vec<u8> = Vec::new();
    append_zero_bytes(&mut r, 16);
    append_bytes(&mut r, f.bytes.as_slice());
    proof {
        assert(r@.subrange(0, 16) =~= zero_bytes(16));
        assert(r@.subrange(16, 64) =~= f@);
    }
    r
}

/// Decodes a 128-byte quadratic-extension block: the first word is c0, the
/// second is c1.
pub fn decode_fq2(block: &[u8]) -> (r: Result<Fe2, PrecompileError>)
    requires
        block@.len() == 128,
    ensures
        match r {
            Ok(f) => word_ok(block@.subrange(0, 64)) && word_ok(block@.subrange(64, 128)) && f@
                == block@ && f.wf(),
            Err(e) => (!word_ok(block@.subrange(0, 64)) || !word_ok(block@.subrange(64, 128)))
                && e == PrecompileError::InvalidFieldEncoding,
        },
{
    let c0 = decode_fq(vstd::slice::slice_subrange(block, 0, 64))?;
    let c1 = decode_fq(vstd::slice::slice_subrange(block, 64, 128))?;
    let f = Fe2 { c0, c1 };
    proof {
        assert(f@ =~= block@);
    }
    Ok(f)
}

/// Encodes a quadratic-extension element as its 128-byte wire block.
pub fn encode_fq2(f: &Fe2) -> (r: Vec<u8>)
    requires
        f.wf(),
    ensures
        r@ == f@,
{
    let mut r = encode_fq(&f.c0);
    let c1 = encode_fq(&f.c1);
    append_bytes(&mut r, c1.as_slice());
    r
}

/// Decodes a 32-byte scalar. Every value is accepted; there is no canonical
/// range requirement.
pub fn decode_fr(bytes: &[u8]) -> (r: Scalar)
    requires
        bytes@.len() == 32,
    ensures
        r@ == bytes@,
        r.wf(),
{
    Scalar { bytes: vstd::slice::slice_to_vec(bytes) }
}

/// Encodes a scalar as its 32 raw bytes.
pub fn encode_fr(s: &Scalar) -> (r: Vec<u8>)
    requires
        s.wf(),
    ensures
        r@ == s@,
{
    vstd::slice::slice_to_vec(s.bytes.as_slice())
}

} // verus!
