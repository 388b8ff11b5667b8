//! The ways in which making a preview can fail.

use vstd::prelude::*;

verus! {

/// Why no preview was produced.
#[derive(Clone, Copy, Debug, PartialEq, Eq, Structural)]
pub enum PreviewError {
    /// The bytes are not an image that the codec can read, or the pixel data
    /// does not match the stated width and height.
    Decode,
    /// A width or height is zero, or the crop arithmetic leaves the range of
    /// the integer types that hold it.
    Geometry,
    /// The pixel buffer cannot be written out as an image.
    Encode,
}

} // verus!
