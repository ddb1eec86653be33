//! Positions in 3D space: homogeneous 4-tuples whose fourth coordinate is 1.

use vstd::prelude::*;
use crate::scalar::{Scalar, RAW_MAX, SCALE};
use crate::vector::Vector;
use crate::algebra::{Raw4, add4, sub4, scale4, div_scale4};

verus! {

/// A 3-component position. The stored fourth coordinate w is `SCALE` (the
/// raw form of 1) for every point an operation of this algebra returns:
/// adding a direction keeps it at 1, subtracting two positions cancels it to
/// 0 and so turns the result into a direction.
#[derive(Clone, Copy, PartialEq, Eq, Structural, Debug)]
pub struct Point {
    pub x: Scalar,
    pub y: Scalar,
    pub z: Scalar,
    pub w: Scalar,
}

impl View for Point {
    type V = Raw4;

    open spec fn view(&self) -> Raw4 {
        (self.x@, self.y@, self.z@, self.w@)
    }
}

impl Point {
    /// Every component is representable and the homogeneous coordinate is 1.
    pub open spec fn wf(self) -> bool {
        &&& self.x.wf()
        &&& self.y.wf()
        &&& self.z.wf()
        &&& self@.3 == SCALE as int
    }

    /// The position (x, y, z), with w fixed to 1.
    pub fn new(x: Scalar, y: Scalar, z: Scalar) -> (r: Point)
        ensures
            r@ == (x@, y@, z@, SCALE as int),
    {
        Point { x, y, z, w: Scalar::from_raw(SCALE) }
    }

    /// The position read out of a 3-element array, with w fixed to 1.
    pub fn from_array(vals: [Scalar; 3]) -> (r: Point)
        ensures
            r@ == (vals@[0]@, vals@[1]@, vals@[2]@, SCALE as int),
    {
        Point { x: vals[0], y: vals[1], z: vals[2], w: Scalar::from_raw(SCALE) }
    }

    /// Translate a position by a direction; the result stays a position
    /// (w = 1 + 0 = 1).
    pub fn add(self, rhs: Vector) -> (r: Point)
        ensures
            r@ == add4(self@, rhs@),
    {
        Point {
            x: self.x.add(rhs.x),
            y: self.y.add(rhs.y),
            z: self.z.add(rhs.z),
            w: self.w.add(rhs.w),
        }
    }

    /// The difference of two positions is the direction from `rhs` to
    /// `self`: the homogeneous lanes cancel (1 − 1 = 0), so the result type
    /// changes to `Vector` by design.
    pub fn sub(self, rhs: Point) -> (r: Vector)
        ensures
            r@ == sub4(self@, rhs@),
    {
        Vector {
            x: self.x.sub(rhs.x),
            y: self.y.sub(rhs.y),
            z: self.z.sub(rhs.z),
            w: self.w.sub(rhs.w),
        }
    }

    /// Translate a position backward by a direction; the result stays a
    /// position (w = 1 − 0 = 1).
    pub fn sub_vec(self, rhs: Vector) -> (r: Point)
        ensures
            r@ == sub4(self@, rhs@),
    {
        Point {
            x: self.x.sub(rhs.x),
            y: self.y.sub(rhs.y),
            z: self.z.sub(rhs.z),
            w: self.w.sub(rhs.w),
        }
    }

    /// x, y and z scaled by `rhs`; w is deliberately preserved, since scaling
    /// a homogeneous position's w would change its affine meaning.
    pub fn mul(self, rhs: Scalar) -> (r: Point)
        ensures
            r@ == scale4(self@, rhs@),
    {
        Point { x: self.x.mul(rhs), y: self.y.mul(rhs), z: self.z.mul(rhs), w: self.w }
    }

    /// x, y and z divided by `rhs`; w is preserved, with the same policy as
    /// `mul`. Division by zero is left to callers.
    pub fn div(self, rhs: Scalar) -> (r: Point)
        requires
            rhs@ != 0,
        ensures
            r@ == div_scale4(self@, rhs@),
    {
        Point { x: self.x.div(rhs), y: self.y.div(rhs), z: self.z.div(rhs), w: self.w }
    }
}

/// Translating a position by a direction and back returns the original
/// position: `(p + v) - v == p`, provided no component of the intermediate
/// sum leaves the representable range (at the edge of the range the
/// saturating sum loses the excess, and the round trip with it).
pub proof fn lemma_translate_round_trip(p: Point, v: Vector)
    requires
        p.wf(),
        v.wf(),
        -(RAW_MAX as int) <= p@.0 + v@.0 <= RAW_MAX as int,
        -(RAW_MAX as int) <= p@.1 + v@.1 <= RAW_MAX as int,
        -(RAW_MAX as int) <= p@.2 + v@.2 <= RAW_MAX as int,
    ensures
        sub4(add4(p@, v@), v@) == p@,
{
}

} // verus!
