//! View-level model of the algebra.
//!
//! Vectors, points and colors are all stored as homogeneous 4-tuples of
//! scalars; their contracts describe results as 4-tuples of raw values.
//! The functions here are that model: each one says exactly which raw values
//! an operation produces.

use vstd::prelude::*;
use crate::scalar::{clip, tdiv, isqrt, SCALE};

verus! {

/// The raw values of one homogeneous 4-tuple: x, y, z and the homogeneous
/// coordinate w (0 for directions and colors, `SCALE` for positions).
pub type Raw4 = (int, int, int, int);

/// Raw value of a product of two scalars.
pub open spec fn mul_val(a: int, b: int) -> int {
    clip(tdiv(a * b, SCALE as int))
}

/// Raw value of a quotient of two scalars.
pub open spec fn div_val(a: int, d: int) -> int {
    clip(tdiv(a * SCALE as int, d))
}

/// Lane-wise sum.
pub open spec fn add4(a: Raw4, b: Raw4) -> Raw4 {
    (clip(a.0 + b.0), clip(a.1 + b.1), clip(a.2 + b.2), clip(a.3 + b.3))
}

/// Lane-wise difference.
pub open spec fn sub4(a: Raw4, b: Raw4) -> Raw4 {
    (clip(a.0 - b.0), clip(a.1 - b.1), clip(a.2 - b.2), clip(a.3 - b.3))
}

/// Lane-wise negation.
pub open spec fn neg4(a: Raw4) -> Raw4 {
    (clip(-a.0), clip(-a.1), clip(-a.2), clip(-a.3))
}

/// x, y and z scaled by `s`; the homogeneous lane is kept as it is, so that
/// scaling changes neither a direction's nor a position's kind.
pub open spec fn scale4(a: Raw4, s: int) -> Raw4 {
    (mul_val(a.0, s), mul_val(a.1, s), mul_val(a.2, s), a.3)
}

/// x, y and z divided by `s`; the homogeneous lane is kept as it is.
pub open spec fn div_scale4(a: Raw4, s: int) -> Raw4 {
    (div_val(a.0, s), div_val(a.1, s), div_val(a.2, s), a.3)
}

/// Lane-wise (Hadamard) product over all four stored lanes.
pub open spec fn hadamard4(a: Raw4, b: Raw4) -> Raw4 {
    (mul_val(a.0, b.0), mul_val(a.1, b.1), mul_val(a.2, b.2), mul_val(a.3, b.3))
}

/// Sum of the squares of all four stored lanes.
pub open spec fn mag_sq4(a: Raw4) -> int {
    a.0 * a.0 + a.1 * a.1 + a.2 * a.2 + a.3 * a.3
}

/// Raw value of the Euclidean norm over the stored 4-tuple: the rounded-down
/// square root of the sum of squares of the raw lanes.
pub open spec fn mag4(a: Raw4) -> int {
    clip(isqrt(mag_sq4(a)))
}

/// Raw value of the dot product over x, y and z: the true sum of pairwise
/// products, scaled back in one truncating step.
pub open spec fn dot4(a: Raw4, b: Raw4) -> int {
    clip(tdiv(a.0 * b.0 + a.1 * b.1 + a.2 * b.2, SCALE as int))
}

/// The 3D cross product over x, y and z; the result is a direction (w = 0).
pub open spec fn cross4(a: Raw4, b: Raw4) -> Raw4 {
    (
        clip(mul_val(a.1, b.2) - mul_val(a.2, b.1)),
        clip(mul_val(a.2, b.0) - mul_val(a.0, b.2)),
        clip(mul_val(a.0, b.1) - mul_val(a.1, b.0)),
        0,
    )
}

/// Saturating twice saturates no further: negating a clipped value is the
/// clipped negation, because the raw range is symmetric.
pub proof fn lemma_clip_neg(t: int)
    ensures
        clip(-clip(t)) == clip(-t),
{
}

} // verus!
