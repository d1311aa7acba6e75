//! Byte-level interface of the BLS12-377 elliptic-curve precompile:
//! canonical encoding and decoding of field elements and curve points,
//! strict validation of the wire format, and dispatch to the seven
//! arithmetic operations (addition, scalar multiplication and
//! multi-scalar multiplication over each of the two groups, and the
//! multi-pair pairing check).
//!
//! The underlying finite-field and elliptic-curve arithmetic is supplied
//! by the arkworks libraries behind a small trusted boundary; everything
//! else - the codec, the validator and the operation dispatch - is
//! verified.

pub mod algebra;
pub mod bytes;
pub mod dispatch;
pub mod errors;
pub mod field;
pub mod laws;
pub mod ops;
pub mod pairing;
pub mod point;

pub use bytes::{be_int, zero_bytes};
pub use dispatch::{execute, Operation};
pub use errors::PrecompileError;
pub use field::{decode_fq, decode_fq2, decode_fr, encode_fq, encode_fq2, encode_fr};
pub use ops::{g1_add, g1_mul, g1_multiexp, g2_add, g2_mul, g2_multiexp};
pub use pairing::pairing;
pub use point::{decode_g1, decode_g2, encode_g1, encode_g2, G1Point, G2Point};
