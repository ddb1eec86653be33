//! Colors: red, green and blue channels with an inert fourth slot.

use vstd::prelude::*;
use crate::scalar::Scalar;
use crate::algebra::{Raw4, add4, sub4, hadamard4, mul_val};

verus! {

/// A 3-channel color. The fourth stored slot is inert padding, fixed at 0
/// and never read by any public operation.
///
/// Equality is lane-wise equality of the stored representations. The fixed
/// comparison tolerance of the algebra — half the relative rounding step of
/// a 64-bit binary floating-point number, about 1.1e-16 — is far below one
/// quantum of this representation (1e-6), so on representable values the
/// tolerant comparison and exact comparison coincide, and one `==` serves
/// every comparison in the system.
#[derive(Clone, Copy, PartialEq, Eq, Structural, Debug)]
pub struct Color {
    r: Scalar,
    g: Scalar,
    b: Scalar,
    pad: Scalar,
}

impl View for Color {
    type V = Raw4;

    closed spec fn view(&self) -> Raw4 {
        (self.r@, self.g@, self.b@, self.pad@)
    }
}

/// A named channel for read-only access.
#[derive(Debug)]
pub enum Colors {
    R,
    G,
    B,
}

/// All three channels are 0 (and so is the padding slot): the color every
/// canvas cell starts from.
pub open spec fn is_black(c: Color) -> bool {
    c@ == (0int, 0int, 0int, 0int)
}

impl Color {
    /// The color (r, g, b), with the padding slot fixed to 0.
    pub fn new(r: Scalar, g: Scalar, b: Scalar) -> (c: Color)
        ensures
            c@ == (r@, g@, b@, 0int),
    {
        Color { r, g, b, pad: Scalar::from_raw(0) }
    }

    /// Read-only access to one named channel.
    pub fn index(&self, index: Colors) -> (c: Scalar)
        ensures
            c@ == match index {
                Colors::R => self@.0,
                Colors::G => self@.1,
                Colors::B => self@.2,
            },
    {
        match index {
            Colors::R => self.r,
            Colors::G => self.g,
            Colors::B => self.b,
        }
    }

    /// Lane-wise sum: combining two lights adds their channels.
    pub fn add(self, rhs: Color) -> (c: Color)
        ensures
            c@ == add4(self@, rhs@),
    {
        Color {
            r: self.r.add(rhs.r),
            g: self.g.add(rhs.g),
            b: self.b.add(rhs.b),
            pad: self.pad.add(rhs.pad),
        }
    }

    /// Lane-wise difference.
    pub fn sub(self, rhs: Color) -> (c: Color)
        ensures
            c@ == sub4(self@, rhs@),
    {
        Color {
            r: self.r.sub(rhs.r),
            g: self.g.sub(rhs.g),
            b: self.b.sub(rhs.b),
            pad: self.pad.sub(rhs.pad),
        }
    }

    /// The Hadamard (lane-wise) product, used for filtering and attenuation;
    /// deliberately not a dot product.
    pub fn mul(self, rhs: Color) -> (c: Color)
        ensures
            c@ == hadamard4(self@, rhs@),
    {
        Color {
            r: self.r.mul(rhs.r),
            g: self.g.mul(rhs.g),
            b: self.b.mul(rhs.b),
            pad: self.pad.mul(rhs.pad),
        }
    }

    /// Each of r, g and b scaled by `rhs` independently; the padding slot is
    /// rebuilt at 0.
    pub fn scale(self, rhs: Scalar) -> (c: Color)
        ensures
            c@ == (mul_val(self@.0, rhs@), mul_val(self@.1, rhs@), mul_val(self@.2, rhs@), 0int),
    {
        Color::new(self.r.mul(rhs), self.g.mul(rhs), self.b.mul(rhs))
    }
}

impl Default for Color {
    /// Black: the default cell value of a canvas.
    fn default() -> (c: Color)
        ensures
            is_black(c),
    {
        Color::new(Scalar::from_raw(0), Scalar::from_raw(0), Scalar::from_raw(0))
    }
}

} // verus!
