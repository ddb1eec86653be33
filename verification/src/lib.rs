//! Numeric and raster foundation for a software ray tracer: a fixed-point
//! algebra of 3D points, vectors and colors in homogeneous coordinates, and a
//! 2D pixel canvas that encodes to a PNG byte stream.

pub mod algebra;
pub mod canvas;
pub mod color;
pub mod png_codec;
pub mod point;
pub mod scalar;
pub mod vector;

pub use canvas::{Canvas, ExportError, GridCoord};
pub use color::{Color, Colors};
pub use point::Point;
pub use scalar::Scalar;
pub use vector::{Direction, Vector};
