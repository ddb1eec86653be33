//! Directions in 3D space: homogeneous 4-tuples whose fourth coordinate is 0.

use vstd::prelude::*;
use crate::scalar::{Scalar, RAW_MAX, SCALE, clip, tdiv, isqrt, is_isqrt, lemma_isqrt_exists,
    lemma_isqrt_unique, lemma_isqrt_pos, isqrt_u128, sdiv128};
use crate::algebra::{Raw4, add4, sub4, neg4, scale4, div_scale4, mag_sq4, mag4, dot4, cross4,
    mul_val, div_val, lemma_clip_neg};

verus! {

/// A 3-component direction. The stored fourth coordinate w is 0 for every
/// vector an operation of this algebra returns, which is what separates a
/// direction from a position.
#[derive(Clone, Copy, PartialEq, Eq, Structural, Debug)]
pub struct Vector {
    pub x: Scalar,
    pub y: Scalar,
    pub z: Scalar,
    pub w: Scalar,
}

impl View for Vector {
    type V = Raw4;

    open spec fn view(&self) -> Raw4 {
        (self.x@, self.y@, self.z@, self.w@)
    }
}

/// A named axis for read-only component access.
#[derive(Debug)]
pub enum Direction {
    X,
    Y,
    Z,
}

impl Vector {
    /// Every component is representable and the homogeneous coordinate is 0.
    pub open spec fn wf(self) -> bool {
        &&& self.x.wf()
        &&& self.y.wf()
        &&& self.z.wf()
        &&& self@.3 == 0
    }

    /// The direction (x, y, z), with w fixed to 0.
    pub fn new(x: Scalar, y: Scalar, z: Scalar) -> (r: Vector)
        ensures
            r@ == (x@, y@, z@, 0int),
    {
        Vector { x, y, z, w: Scalar::from_raw(0) }
    }

    /// The direction read out of a 3-element array, with w fixed to 0.
    pub fn from_array(vals: [Scalar; 3]) -> (r: Vector)
        ensures
            r@ == (vals@[0]@, vals@[1]@, vals@[2]@, 0int),
    {
        Vector { x: vals[0], y: vals[1], z: vals[2], w: Scalar::from_raw(0) }
    }

    /// Read-only access to one named component.
    pub fn index(&self, index: Direction) -> (r: Scalar)
        ensures
            r == match index {
                Direction::X => self.x,
                Direction::Y => self.y,
                Direction::Z => self.z,
            },
    {
        match index {
            Direction::X => self.x,
            Direction::Y => self.y,
            Direction::Z => self.z,
        }
    }

    /// Lane-wise sum; the sum of two directions is a direction (0 + 0 = 0).
    pub fn add(self, rhs: Vector) -> (r: Vector)
        ensures
            r@ == add4(self@, rhs@),
    {
        Vector {
            x: self.x.add(rhs.x),
            y: self.y.add(rhs.y),
            z: self.z.add(rhs.z),
            w: self.w.add(rhs.w),
        }
    }

    /// Lane-wise difference; the difference of two directions is a direction.
    pub fn sub(self, rhs: Vector) -> (r: Vector)
        ensures
            r@ == sub4(self@, rhs@),
    {
        Vector {
            x: self.x.sub(rhs.x),
            y: self.y.sub(rhs.y),
            z: self.z.sub(rhs.z),
            w: self.w.sub(rhs.w),
        }
    }

    /// Lane-wise negation over the whole stored tuple (−0 keeps w at 0).
    pub fn neg(self) -> (r: Vector)
        ensures
            r@ == neg4(self@),
    {
        Vector { x: self.x.neg(), y: self.y.neg(), z: self.z.neg(), w: self.w.neg() }
    }

    /// x, y and z scaled by `rhs`; w is deliberately left untouched, so that
    /// scaling a direction cannot change its kind.
    pub fn mul(self, rhs: Scalar) -> (r: Vector)
        ensures
            r@ == scale4(self@, rhs@),
    {
        Vector { x: self.x.mul(rhs), y: self.y.mul(rhs), z: self.z.mul(rhs), w: self.w }
    }

    /// x, y and z divided by `rhs`; w is left untouched. Division by zero is
    /// left to callers, as everywhere in this algebra.
    pub fn div(self, rhs: Scalar) -> (r: Vector)
        requires
            rhs@ != 0,
        ensures
            r@ == div_scale4(self@, rhs@),
    {
        Vector { x: self.x.div(rhs), y: self.y.div(rhs), z: self.z.div(rhs), w: self.w }
    }

    /// The magnitude: the Euclidean norm computed over the stored 4-tuple,
    /// not special-cased to three components (w is 0 for a true vector, so
    /// the two agree).
    pub fn mag(&self) -> (r: Scalar)
        ensures
            r@ == mag4(self@),
    {
        proof {
            use_type_invariant(&self.x);
            use_type_invariant(&self.y);
            use_type_invariant(&self.z);
            use_type_invariant(&self.w);
        }
        let sq = sum_of_squares(self.x, self.y, self.z, self.w);
        let root = isqrt_u128(sq);
        proof {
            lemma_isqrt_exists(sq as int);
            lemma_isqrt_unique(sq as int, root as int, isqrt(sq as int));
        }
        if root > RAW_MAX as u64 {
            Scalar::from_raw(RAW_MAX)
        } else {
            Scalar::from_raw(root as i64)
        }
    }

    /// The unit direction: this vector divided by its magnitude. A zero
    /// vector is excluded, as its magnitude would divide by zero.
    pub fn norm(self) -> (r: Vector)
        requires
            mag_sq4(self@) > 0,
        ensures
            r@ == div_scale4(self@, mag4(self@)),
    {
        let m = self.mag();
        proof {
            lemma_isqrt_pos(mag_sq4(self@));
        }
        self.div(m)
    }
}

/// Sum of the squares of the four raw lanes, exactly `mag_sq4`.
fn sum_of_squares(x: Scalar, y: Scalar, z: Scalar, w: Scalar) -> (r: u128)
    ensures
        r as int == mag_sq4((x@, y@, z@, w@)),
        r as int <= 4 * (RAW_MAX as int) * (RAW_MAX as int),
{
    proof {
        use_type_invariant(&x);
        use_type_invariant(&y);
        use_type_invariant(&z);
        use_type_invariant(&w);
        lemma_square_bound(x@);
        lemma_square_bound(y@);
        lemma_square_bound(z@);
        lemma_square_bound(w@);
    }
    let xs = ((x.raw() as i128) * (x.raw() as i128)) as u128;
    let ys = ((y.raw() as i128) * (y.raw() as i128)) as u128;
    let zs = ((z.raw() as i128) * (z.raw() as i128)) as u128;
    let ws = ((w.raw() as i128) * (w.raw() as i128)) as u128;
    xs + ys + zs + ws
}

/// The square of a representable raw value is non-negative and bounded.
proof fn lemma_square_bound(a: int)
    requires
        -(RAW_MAX as int) <= a <= RAW_MAX as int,
    ensures
        0 <= a * a <= (RAW_MAX as int) * (RAW_MAX as int),
{
    assert(0 <= a * a <= (RAW_MAX as int) * (RAW_MAX as int)) by (nonlinear_arith)
        requires
            -(RAW_MAX as int) <= a <= RAW_MAX as int,
    ;
}

/// The dot product over x, y and z: the true sum of the three pairwise
/// products, scaled back in one truncating step.
pub fn dot(a: Vector, b: Vector) -> (r: Scalar)
    ensures
        r@ == dot4(a@, b@),
{
    proof {
        use_type_invariant(&a.x);
        use_type_invariant(&a.y);
        use_type_invariant(&a.z);
        use_type_invariant(&b.x);
        use_type_invariant(&b.y);
        use_type_invariant(&b.z);
        lemma_product_bound(a.x@, b.x@);
        lemma_product_bound(a.y@, b.y@);
        lemma_product_bound(a.z@, b.z@);
    }
    let px = (a.x.raw() as i128) * (b.x.raw() as i128);
    let py = (a.y.raw() as i128) * (b.y.raw() as i128);
    let pz = (a.z.raw() as i128) * (b.z.raw() as i128);
    Scalar::from_raw(sdiv128(px + py + pz, SCALE as i128))
}

/// The product of two representable raw values is bounded.
proof fn lemma_product_bound(a: int, b: int)
    requires
        -(RAW_MAX as int) <= a <= RAW_MAX as int,
        -(RAW_MAX as int) <= b <= RAW_MAX as int,
    ensures
        -((RAW_MAX as int) * (RAW_MAX as int)) <= a * b <= (RAW_MAX as int) * (RAW_MAX as int),
{
    assert(-((RAW_MAX as int) * (RAW_MAX as int)) <= a * b <= (RAW_MAX as int) * (RAW_MAX as int))
        by (nonlinear_arith)
        requires
            -(RAW_MAX as int) <= a <= RAW_MAX as int,
            -(RAW_MAX as int) <= b <= RAW_MAX as int,
    ;
}

/// The cross product over x, y and z: the direction perpendicular to both
/// arguments, each component a difference of two scaled products.
pub fn cross(a: Vector, b: Vector) -> (r: Vector)
    ensures
        r@ == cross4(a@, b@),
{
    Vector::new(
        a.y.mul(b.z).sub(a.z.mul(b.y)),
        a.z.mul(b.x).sub(a.x.mul(b.z)),
        a.x.mul(b.y).sub(a.y.mul(b.x)),
    )
}

/// Normalizing an axis-aligned vector yields a vector of magnitude exactly
/// 1: for `v == (x, 0, 0)` with `x != 0`, the raw magnitude of `v / mag(v)`
/// is exactly `SCALE`. (For general vectors the truncating quotients may
/// each fall short by up to one quantum, so the magnitude of the normalized
/// vector is only approximately 1; that bound is not proved here.)
pub proof fn lemma_norm_axis_unit(v: Vector)
    requires
        v.wf(),
        v@.1 == 0,
        v@.2 == 0,
        v@.0 != 0,
    ensures
        mag4(div_scale4(v@, mag4(v@))) == SCALE as int,
{
    let s = SCALE as int;
    let x = v@.0;
    let ax = vstd::math::abs(x) as int;
    let n = mag_sq4(v@);
    assert(n == x * x);
    assert(x * x == ax * ax && ax >= 1) by (nonlinear_arith)
        requires
            ax == if x < 0 {
                -x
            } else {
                x
            },
            x != 0,
    ;
    assert((ax + 1) * (ax + 1) > ax * ax) by (nonlinear_arith)
        requires
            ax >= 0,
    ;
    assert(is_isqrt(n, ax));
    lemma_isqrt_exists(n);
    lemma_isqrt_unique(n, ax, isqrt(n));
    let m = isqrt(n);
    assert(m == ax);
    assert(clip(m) == m);
    assert(mag4(v@) == m);
    // the one nonzero lane divides exactly: |x|·s / |x| == s
    vstd::arithmetic::div_mod::lemma_div_multiples_vanish(s, ax);
    assert(ax * s == s * ax) by (nonlinear_arith);
    assert((ax * s) / ax == s);
    if x >= 0 {
        assert(x * s >= 0) by (nonlinear_arith)
            requires
                x >= 0,
                s > 0,
        ;
        assert(vstd::math::abs(x * s) == ax * s);
    } else {
        assert(x * s < 0) by (nonlinear_arith)
            requires
                x < 0,
                s > 0,
        ;
        assert(-(x * s) == ax * s) by (nonlinear_arith)
            requires
                ax == -x,
        ;
        assert(vstd::math::abs(x * s) == ax * s);
    }
    assert(vstd::math::abs(m) == m);
    assert(tdiv(x * s, m) == if x < 0 {
        -s
    } else {
        s
    });
    assert(div_val(x, m) == if x < 0 {
        -s
    } else {
        s
    });
    assert(div_val(0, m) == 0) by {
        assert(tdiv(0 * s, m) == 0);
    }
    let d = div_scale4(v@, m);
    assert(mag_sq4(d) == s * s) by (nonlinear_arith)
        requires
            d.0 == if v@.0 < 0 {
                -s
            } else {
                s
            },
            d.1 == 0,
            d.2 == 0,
            d.3 == 0,
            mag_sq4(d) == d.0 * d.0 + d.1 * d.1 + d.2 * d.2 + d.3 * d.3,
    ;
    assert((s + 1) * (s + 1) > s * s) by (nonlinear_arith)
        requires
            s >= 0,
    ;
    assert(is_isqrt(s * s, s));
    lemma_isqrt_exists(s * s);
    lemma_isqrt_unique(s * s, s, isqrt(s * s));
    assert(clip(s) == s);
    assert(mag4(d) == s);
}

/// Vector addition is commutative.
pub proof fn lemma_add_comm(a: Vector, b: Vector)
    ensures
        add4(a@, b@) == add4(b@, a@),
{
}

/// Subtracting in the opposite order negates the difference:
/// `a - b == -(b - a)`, lane by lane.
pub proof fn lemma_sub_neg(a: Vector, b: Vector)
    ensures
        sub4(a@, b@) == neg4(sub4(b@, a@)),
{
    lemma_clip_neg(b@.0 - a@.0);
    lemma_clip_neg(b@.1 - a@.1);
    lemma_clip_neg(b@.2 - a@.2);
    lemma_clip_neg(b@.3 - a@.3);
}

/// The cross product is antisymmetric: `cross(a, b) == -cross(b, a)`.
pub proof fn lemma_cross_antisym(a: Vector, b: Vector)
    ensures
        cross4(a@, b@) == neg4(cross4(b@, a@)),
{
    lemma_clip_neg(mul_val(b@.1, a@.2) - mul_val(b@.2, a@.1));
    lemma_clip_neg(mul_val(b@.2, a@.0) - mul_val(b@.0, a@.2));
    lemma_clip_neg(mul_val(b@.0, a@.1) - mul_val(b@.1, a@.0));
}

} // verus!
