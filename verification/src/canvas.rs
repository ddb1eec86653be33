//! The canvas: a width × height grid of colors, written cell by cell and
//! read back as a flat RGB8 byte buffer in row-major order.

use vstd::prelude::*;
use crate::color::{Color, is_black};
use crate::png_codec::{png_encoding, png_encode_rgb8};
use crate::scalar::{Scalar, SCALE, tdiv};

verus! {

/// Why an export failed. With an in-memory sink the encoder can only reject
/// its inputs: a zero-area image at the header, a buffer of the wrong
/// length at the data write.
#[derive(Clone, Copy, PartialEq, Eq, Structural, Debug)]
pub enum ExportError {
    /// The encoder rejected the image parameters before any data was
    /// written: the canvas has zero width or zero height.
    HeaderWrite,
    /// The encoder rejected the pixel data: the buffer length does not
    /// match `3 * width * height`.
    DataWrite,
}

impl ExportError {
    /// The context line this error carries.
    pub fn message(&self) -> (r: &'static str)
        ensures
            *self == ExportError::HeaderWrite ==> r@ == "failed to write image header"@,
            *self == ExportError::DataWrite ==> r@ == "failed to write image data"@,
    {
        match self {
            ExportError::HeaderWrite => "failed to write image header",
            ExportError::DataWrite => "failed to write image data",
        }
    }
}

/// Encode a flat RGB8 buffer as a PNG byte stream. Succeeds exactly on a
/// non-empty image whose buffer length matches its dimensions; the two
/// error cases say which check rejected the input.
pub fn encode_rgb8(width: u32, height: u32, data: &[u8]) -> (r: Result<Vec<u8>, ExportError>)
    requires
        3 * (width as int) * (height as int) + (height as int) <= usize::MAX as int,
    ensures
        (width > 0 && height > 0 && data@.len() == 3 * (width as int) * (height as int)) ==> (
        r matches Ok(b) && b@ == png_encoding(width, height, data@)),
        (width == 0 || height == 0) ==> r == Result::<Vec<u8>, ExportError>::Err(
            ExportError::HeaderWrite,
        ),
        (width > 0 && height > 0 && data@.len() != 3 * (width as int) * (height as int)) ==> r
            == Result::<Vec<u8>, ExportError>::Err(ExportError::DataWrite),
{
    match png_encode_rgb8(width, height, data) {
        Ok(bytes) => Ok(bytes),
        Err(_) => {
            if width == 0 || height == 0 {
                Err(ExportError::HeaderWrite)
            } else {
                Err(ExportError::DataWrite)
            }
        },
    }
}

/// A 2D grid coordinate, 0-indexed; purely a lookup key.
#[derive(Clone, Copy, PartialEq, Eq, Structural, Hash, Debug)]
pub struct GridCoord {
    pub x: usize,
    pub y: usize,
}

impl From<(usize, usize)> for GridCoord {
    fn from(coords: (usize, usize)) -> (r: Self) {
        GridCoord { x: coords.0, y: coords.1 }
    }
}

impl vstd::std_specs::convert::FromSpecImpl<(usize, usize)> for GridCoord {
    open spec fn obeys_from_spec() -> bool {
        true
    }

    open spec fn from_spec(coords: (usize, usize)) -> GridCoord {
        GridCoord { x: coords.0, y: coords.1 }
    }
}

/// A pixel grid owning one contiguous row-major buffer: the cell at (x, y)
/// is entry `y * width + x`.
pub struct Canvas {
    pub width: usize,
    pub height: usize,
    pub pixels: Vec<Color>,
}

impl View for Canvas {
    type V = Seq<Color>;

    open spec fn view(&self) -> Seq<Color> {
        self.pixels@
    }
}

/// The byte a stored channel value exports to: the value truncated toward
/// zero to a whole number, then saturated into 0..=255. This is a narrowing
/// cast, not a color mapping: 1.0 exports as 1, not 255, and no scaling to
/// the byte range is applied — a deliberate, documented choice.
pub open spec fn channel_byte(raw: int) -> u8 {
    let q = tdiv(raw, SCALE as int);
    if q < 0 {
        0u8
    } else if q > 255 {
        255u8
    } else {
        q as u8
    }
}

/// The flat RGB8 export of a pixel sequence: 3 bytes per pixel, in pixel
/// order, each channel through `channel_byte`.
pub open spec fn image_bytes(pixels: Seq<Color>) -> Seq<u8> {
    Seq::new(
        (pixels.len() * 3) as nat,
        |i: int|
            if i % 3 == 0 {
                channel_byte(pixels[i / 3]@.0)
            } else if i % 3 == 1 {
                channel_byte(pixels[i / 3]@.1)
            } else {
                channel_byte(pixels[i / 3]@.2)
            },
    )
}

impl Canvas {
    /// The buffer holds exactly one cell per grid coordinate.
    pub open spec fn wf(self) -> bool {
        self@.len() == self.width * self.height
    }

    /// Buffer position of a coordinate.
    pub open spec fn idx(self, coord: GridCoord) -> int {
        coord.y * self.width + coord.x
    }

    /// Whether a coordinate lies on the grid.
    pub open spec fn contains(self, coord: GridCoord) -> bool {
        coord.x < self.width && coord.y < self.height
    }

    /// A width × height canvas with every cell initialized to black.
    /// Zero-area canvases are legal and own an empty buffer.
    pub fn new(width: usize, height: usize) -> (r: Canvas)
        requires
            width * height <= usize::MAX,
        ensures
            r.wf(),
            r.width == width,
            r.height == height,
            forall|i: int| 0 <= i < r@.len() ==> is_black(#[trigger] r@[i]),
    {
        let n = width * height;
        let black = Color::default();
        let mut pixels: Vec<Color> = Vec::new();
        let mut i: usize = 0;
        while i < n
            invariant
                i <= n,
                pixels@.len() == i,
                is_black(black),
                forall|j: int| 0 <= j < i ==> is_black(#[trigger] pixels@[j]),
            decreases n - i,
        {
            pixels.push(black);
            i = i + 1;
        }
        Canvas { width, height, pixels }
    }

    /// Whether a coordinate lies on the grid.
    fn in_bounds(&self, coord: GridCoord) -> (r: bool)
        ensures
            r == self.contains(coord),
    {
        coord.x < self.width && coord.y < self.height
    }

    /// The color at a coordinate, or `None` for any coordinate at or beyond
    /// a grid edge; never a failure.
    pub fn cell(&self, coord: GridCoord) -> (r: Option<Color>)
        requires
            self.wf(),
        ensures
            match r {
                Some(c) => self.contains(coord) && c == self@[self.idx(coord)],
                None => !self.contains(coord),
            },
    {
        if !self.in_bounds(coord) {
            return None;
        }
        let len = self.pixels.len();
        proof {
            lemma_grid_index(coord.x as int, coord.y as int, self.width as int,
                self.height as int);
            assert(coord.y * self.width + coord.x < len);
        }
        Some(self.pixels[coord.y * self.width + coord.x])
    }

    /// A mutable borrow of the cell at a coordinate, or `None` off the grid.
    /// Writing through the borrow replaces exactly that cell.
    pub fn cell_mut(&mut self, coord: GridCoord) -> (r: Option<&mut Color>)
        requires
            old(self).wf(),
        ensures
            match r {
                Some(c) => old(self).contains(coord) && *c == old(self)@[old(self).idx(coord)]
                    && final(self)@ == old(self)@.update(old(self).idx(coord), *final(c))
                    && final(self).width == old(self).width
                    && final(self).height == old(self).height,
                None => !old(self).contains(coord) && *final(self) == *old(self),
            },
    {
        if !self.in_bounds(coord) {
            return None;
        }
        let len = self.pixels.len();
        proof {
            lemma_grid_index(coord.x as int, coord.y as int, self.width as int,
                self.height as int);
            assert(coord.y * self.width + coord.x < len);
        }
        let i = coord.y * self.width + coord.x;
        Some(&mut self.pixels[i])
    }

    /// Replace the color at a coordinate. Writing outside the grid is a
    /// contract violation, excluded here rather than trapped at run time:
    /// callers must stay in bounds.
    pub fn write_color(&mut self, coord: GridCoord, color: Color)
        requires
            old(self).wf(),
            old(self).contains(coord),
        ensures
            final(self).wf(),
            final(self).width == old(self).width,
            final(self).height == old(self).height,
            final(self)@ == old(self)@.update(old(self).idx(coord), color),
    {
        proof {
            lemma_grid_index(coord.x as int, coord.y as int, self.width as int,
                self.height as int);
        }
        match self.cell_mut(coord) {
            Some(cell) => {
                *cell = color;
            },
            None => {
                proof {
                    assert(false);
                }
            },
        }
    }

    /// The full pixel buffer as flat RGB8 bytes, row-major (y outer, x
    /// inner, y = 0 first): exactly `image_bytes` of the stored sequence.
    pub fn to_image_data(self) -> (r: Vec<u8>)
        ensures
            r@ == image_bytes(self@),
    {
        let n = self.pixels.len();
        let mut out: Vec<u8> = Vec::new();
        let mut i: usize = 0;
        while i < n
            invariant
                i <= n,
                n == self@.len(),
                out@.len() == 3 * i,
                forall|k: int| 0 <= k < 3 * i ==> out@[k] == image_bytes(self@)[k],
            decreases n - i,
        {
            let p = self.pixels[i];
            proof {
                lemma_triple_index(i as int);
            }
            out.push(byte_of(p.index(crate::color::Colors::R)));
            out.push(byte_of(p.index(crate::color::Colors::G)));
            out.push(byte_of(p.index(crate::color::Colors::B)));
            i = i + 1;
        }
        proof {
            assert(out@ =~= image_bytes(self@));
        }
        out
    }

    /// Consume the canvas and encode it as a complete PNG byte stream.
    /// Succeeds exactly when the canvas has a nonzero area; a zero-area
    /// canvas is rejected by the encoder's header check, not a crash.
    pub fn to_png(self) -> (r: Result<Vec<u8>, ExportError>)
        requires
            self.wf(),
            self.width <= u32::MAX,
            self.height <= u32::MAX,
            3 * (self.width as int) * (self.height as int) + (self.height as int) <= usize::MAX
                as int,
        ensures
            (self.width > 0 && self.height > 0) ==> (r matches Ok(b) && b@ == png_encoding(
                self.width as u32,
                self.height as u32,
                image_bytes(self@),
            )),
            (self.width == 0 || self.height == 0) ==> r == Result::<Vec<u8>, ExportError>::Err(
                ExportError::HeaderWrite,
            ),
    {
        let width = self.width;
        let height = self.height;
        let ghost pixel_count = self@.len() as int;
        let data = self.to_image_data();
        proof {
            assert(3 * (width as int) * (height as int) == pixel_count * 3) by (nonlinear_arith)
                requires
                    pixel_count == (width as int) * (height as int),
            ;
        }
        encode_rgb8(width as u32, height as u32, data.as_slice())
    }
}

/// Export one channel: truncate toward zero, saturate into 0..=255.
fn byte_of(c: Scalar) -> (r: u8)
    ensures
        r == channel_byte(c@),
{
    let raw = c.raw();
    if raw < 0 {
        0
    } else {
        let q = (raw as u64) / (SCALE as u64);
        if q > 255 {
            255
        } else {
            q as u8
        }
    }
}

/// A coordinate on the grid addresses a buffer entry below width × height.
proof fn lemma_grid_index(x: int, y: int, w: int, h: int)
    requires
        0 <= x < w,
        0 <= y < h,
    ensures
        0 <= y * w + x < w * h,
{
    assert(0 <= y * w + x < w * h) by (nonlinear_arith)
        requires
            0 <= x < w,
            0 <= y < h,
    ;
}

/// Positions of the three bytes of pixel `i` inside the flat buffer.
proof fn lemma_triple_index(i: int)
    requires
        i >= 0,
    ensures
        (3 * i) % 3 == 0 && (3 * i) / 3 == i,
        (3 * i + 1) % 3 == 1 && (3 * i + 1) / 3 == i,
        (3 * i + 2) % 3 == 2 && (3 * i + 2) / 3 == i,
{
    assert((3 * i) % 3 == 0 && (3 * i) / 3 == i && (3 * i + 1) % 3 == 1 && (3 * i + 1) / 3 == i
        && (3 * i + 2) % 3 == 2 && (3 * i + 2) / 3 == i) by (nonlinear_arith)
        requires
            i >= 0,
    ;
}

/// The export of an all-black pixel buffer is all zero bytes, three per
/// pixel.
pub proof fn lemma_black_canvas_bytes(pixels: Seq<Color>)
    requires
        forall|i: int| 0 <= i < pixels.len() ==> is_black(#[trigger] pixels[i]),
    ensures
        image_bytes(pixels).len() == 3 * pixels.len(),
        forall|k: int| 0 <= k < 3 * pixels.len() ==> image_bytes(pixels)[k] == 0,
{
    assert forall|k: int| 0 <= k < 3 * pixels.len() implies image_bytes(pixels)[k] == 0 by {
        assert(0 <= k / 3 < pixels.len()) by (nonlinear_arith)
            requires
                0 <= k < 3 * pixels.len(),
        ;
        assert(is_black(pixels[k / 3]));
        assert(tdiv(0, SCALE as int) == 0);
    }
}

} // verus!
