//! Image sizes and integer pixel coordinates.

use vstd::prelude::*;

verus! {

/// The extent of an image in pixels.
#[derive(Clone, Copy, Debug, PartialEq, Eq, Structural)]
pub struct ImageSize {
    pub height: usize,
    pub width: usize,
}

/// The pixel a destination pixel takes its colour from: a transformed
/// coordinate truncated toward zero. It may lie outside the image.
#[derive(Clone, Copy, Debug, PartialEq, Eq, Structural)]
pub struct SourcePixel {
    pub row: i64,
    pub col: i64,
}

impl ImageSize {
    /// Whether `(row, col)` names a pixel of an image of this size.
    pub open spec fn contains(self, row: int, col: int) -> bool {
        0 <= row < self.height && 0 <= col < self.width
    }

    /// The number of pixels of an image of this size.
    pub open spec fn area(self) -> int {
        self.height * self.width
    }
}

/// Whether the pixel `(row, col)` lies inside an image of the given size.
pub fn is_pixel_visible(size: &ImageSize, row: i64, col: i64) -> (visible: bool)
    ensures
        visible == size.contains(row as int, col as int),
{
    row >= 0 && col >= 0 && (row as u64) < (size.height as u64) && (col as u64) < (size.width as u64)
}

} // verus!
