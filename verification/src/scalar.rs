//! Fixed-point scalar arithmetic.
//!
//! Every quantity in the algebra is a multiple of one millionth, held as that
//! multiple in an `i64`. Results that would leave the representable range are
//! saturated to it, and the inexact operations (products, quotients, square
//! roots) truncate toward zero at the last step; the contracts below state
//! those outcomes exactly.

use vstd::prelude::*;

verus! {

/// Number of raw units in 1: a scalar with raw representation `n` has the
/// value `n / SCALE`.
pub const SCALE: i64 = 1_000_000;

/// Largest raw representation a scalar may hold; the range is symmetric, so
/// negation never saturates.
pub const RAW_MAX: i64 = 1_000_000_000_000_000_000;

/// Saturate an unbounded integer into the representable raw range.
pub open spec fn clip(n: int) -> int {
    if n > RAW_MAX as int {
        RAW_MAX as int
    } else if n < -(RAW_MAX as int) {
        -(RAW_MAX as int)
    } else {
        n
    }
}

/// Quotient of `n` by `d`, truncated toward zero (the rounding that the
/// executable sign-and-magnitude division performs).
pub open spec fn tdiv(n: int, d: int) -> int
    recommends
        d != 0,
{
    let q = (vstd::math::abs(n) / vstd::math::abs(d)) as int;
    if (n < 0) == (d < 0) {
        q
    } else {
        -q
    }
}

/// A real quantity, held as a signed multiple of `1 / SCALE`.
#[derive(Clone, Copy, PartialEq, Eq, Structural, Debug, Hash)]
pub struct Scalar {
    raw: i64,
}

impl View for Scalar {
    type V = int;

    closed spec fn view(&self) -> int {
        self.raw as int
    }
}

impl Scalar {
    /// The raw representation lies in the symmetric representable range.
    pub open spec fn wf(self) -> bool {
        -(RAW_MAX as int) <= self@ <= RAW_MAX as int
    }

    #[verifier::type_invariant]
    pub(crate) open spec fn type_inv(self) -> bool {
        self.wf()
    }

    /// The scalar with value `n`, saturated to the representable range.
    pub fn from_int(n: i64) -> (r: Scalar)
        ensures
            r@ == clip(n * SCALE),
    {
        let wide: i128 = (n as i128) * (SCALE as i128);
        Scalar { raw: clip_i128(wide) }
    }

    /// The scalar whose raw representation is `n` (value `n / SCALE`),
    /// saturated to the representable range.
    pub fn from_raw(n: i64) -> (r: Scalar)
        ensures
            r@ == clip(n as int),
    {
        Scalar { raw: clip_i128(n as i128) }
    }

    /// The raw representation: this scalar's value times `SCALE`.
    pub fn raw(self) -> (r: i64)
        ensures
            r as int == self@,
    {
        self.raw
    }

    /// Component-wise saturating sum.
    pub fn add(self, other: Scalar) -> (r: Scalar)
        ensures
            r@ == clip(self@ + other@),
    {
        Scalar { raw: clip_i128(self.raw as i128 + other.raw as i128) }
    }

    /// Component-wise saturating difference.
    pub fn sub(self, other: Scalar) -> (r: Scalar)
        ensures
            r@ == clip(self@ - other@),
    {
        Scalar { raw: clip_i128(self.raw as i128 - other.raw as i128) }
    }

    /// Saturating product: the true product, truncated toward zero at the
    /// last scaling step.
    pub fn mul(self, other: Scalar) -> (r: Scalar)
        ensures
            r@ == clip(tdiv(self@ * other@, SCALE as int)),
    {
        proof {
            use_type_invariant(&self);
            use_type_invariant(&other);
            assert((self.raw as int) * (other.raw as int) <= (RAW_MAX as int) * (RAW_MAX as int)
                && -((RAW_MAX as int) * (RAW_MAX as int)) <= (self.raw as int) * (other.raw
                as int)) by (nonlinear_arith)
                requires
                    -(RAW_MAX as int) <= self.raw as int <= RAW_MAX as int,
                    -(RAW_MAX as int) <= other.raw as int <= RAW_MAX as int,
            ;
        }
        let wide: i128 = (self.raw as i128) * (other.raw as i128);
        Scalar { raw: sdiv128(wide, SCALE as i128) }
    }

    /// Saturating quotient, truncated toward zero. The divisor must not be
    /// zero: the algebra leaves division by zero to its callers.
    pub fn div(self, other: Scalar) -> (r: Scalar)
        requires
            other@ != 0,
        ensures
            r@ == clip(tdiv(self@ * SCALE as int, other@)),
    {
        proof {
            use_type_invariant(&self);
            assert(-((RAW_MAX as int) * (SCALE as int)) <= (self.raw as int) * (SCALE as int)
                <= (RAW_MAX as int) * (SCALE as int)) by (nonlinear_arith)
                requires
                    -(RAW_MAX as int) <= self.raw as int <= RAW_MAX as int,
            ;
        }
        let wide: i128 = (self.raw as i128) * (SCALE as i128);
        Scalar { raw: sdiv128(wide, other.raw as i128) }
    }

    /// Negation; exact, because the representable range is symmetric.
    pub fn neg(self) -> (r: Scalar)
        ensures
            r@ == clip(-self@),
    {
        Scalar { raw: clip_i128(-(self.raw as i128)) }
    }
}

/// `r` is the square root of `n`, rounded down to a whole number.
pub open spec fn is_isqrt(n: int, r: int) -> bool {
    0 <= r && r * r <= n && n < (r + 1) * (r + 1)
}

/// The square root of `n`, rounded down to a whole number.
pub open spec fn isqrt(n: int) -> int
    recommends
        n >= 0,
{
    choose|r: int| is_isqrt(n, r)
}

/// Every non-negative integer has a rounded-down square root, and `isqrt`
/// denotes it.
pub proof fn lemma_isqrt_exists(n: int)
    requires
        n >= 0,
    ensures
        is_isqrt(n, isqrt(n)),
    decreases n,
{
    if n == 0 {
        assert(is_isqrt(0, 0));
    } else {
        lemma_isqrt_exists(n - 1);
        let r = isqrt(n - 1);
        if (r + 1) * (r + 1) <= n {
            assert((r + 1) * (r + 1) < (r + 2) * (r + 2)) by (nonlinear_arith)
                requires
                    r >= 0,
            ;
            assert(is_isqrt(n, r + 1));
        } else {
            assert(is_isqrt(n, r));
        }
    }
}

/// The rounded-down square root of `n` is unique.
pub proof fn lemma_isqrt_unique(n: int, a: int, b: int)
    requires
        is_isqrt(n, a),
        is_isqrt(n, b),
    ensures
        a == b,
{
    if a < b {
        assert((a + 1) * (a + 1) <= b * b) by (nonlinear_arith)
            requires
                0 <= a + 1 <= b,
        ;
    }
    if b < a {
        assert((b + 1) * (b + 1) <= a * a) by (nonlinear_arith)
            requires
                0 <= b + 1 <= a,
        ;
    }
}

/// A positive integer has a positive rounded-down square root.
pub proof fn lemma_isqrt_pos(n: int)
    requires
        n >= 1,
    ensures
        isqrt(n) >= 1,
{
    lemma_isqrt_exists(n);
    let r = isqrt(n);
    if r == 0 {
        assert((r + 1) * (r + 1) == 1) by (nonlinear_arith)
            requires
                r == 0,
        ;
        assert(false);
    }
}

/// The square root of `n`, rounded down to a whole number, by bisection.
pub(crate) fn isqrt_u128(n: u128) -> (r: u64)
    requires
        (n as int) < 0xffff_ffff_ffff_ffff * 0xffff_ffff_ffff_ffff,
    ensures
        r as int == isqrt(n as int),
        is_isqrt(n as int, r as int),
{
    let mut lo: u128 = 0;
    let mut hi: u128 = 0xffff_ffff_ffff_ffff;
    while lo + 1 < hi
        invariant
            lo < hi <= 0xffff_ffff_ffff_ffff,
            (lo as int) * (lo as int) <= n as int,
            (n as int) < (hi as int) * (hi as int),
        decreases hi - lo,
    {
        let mid = lo + (hi - lo) / 2;
        proof {
            assert((mid as int) * (mid as int) <= 0xffff_ffff_ffff_ffff * 0xffff_ffff_ffff_ffff)
                by (nonlinear_arith)
                requires
                    0 <= mid as int <= 0xffff_ffff_ffff_ffff,
            ;
        }
        if mid * mid <= n {
            lo = mid;
        } else {
            hi = mid;
        }
    }
    proof {
        assert(is_isqrt(n as int, lo as int));
        lemma_isqrt_exists(n as int);
        lemma_isqrt_unique(n as int, lo as int, isqrt(n as int));
    }
    lo as u64
}

/// Truncating division on wide intermediates, saturated into the raw range:
/// `r == clip(tdiv(n, d))`.
pub(crate) fn sdiv128(n: i128, d: i128) -> (r: i64)
    requires
        d != 0,
        n != i128::MIN,
        d != i128::MIN,
    ensures
        r as int == clip(tdiv(n as int, d as int)),
{
    let nn: u128 = if n < 0 {
        (-n) as u128
    } else {
        n as u128
    };
    let dd: u128 = if d < 0 {
        (-d) as u128
    } else {
        d as u128
    };
    let q: u128 = nn / dd;
    if (n < 0) == (d < 0) {
        if q > RAW_MAX as u128 {
            RAW_MAX
        } else {
            q as i64
        }
    } else {
        if q > RAW_MAX as u128 {
            -RAW_MAX
        } else {
            -(q as i64)
        }
    }
}

/// Saturate a wide intermediate into the raw range.
fn clip_i128(v: i128) -> (r: i64)
    ensures
        r as int == clip(v as int),
{
    if v > RAW_MAX as i128 {
        RAW_MAX
    } else if v < -(RAW_MAX as i128) {
        -RAW_MAX
    } else {
        v as i64
    }
}

} // verus!

