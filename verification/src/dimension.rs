//! Sizes of widgets.

use vstd::prelude::*;

verus! {

/// A 2D size tuple
#[derive(Clone, Copy, Debug, PartialEq, Eq, Structural)]
pub struct Dimension {
    /// The width, never negative
    pub width: u32,
    /// The height, never negative
    pub height: u32,
}

/// The absolute value of `value`.
pub open spec fn magnitude(value: int) -> int {
    if value < 0 {
        -value
    } else {
        value
    }
}

/// The absolute value of a signed length
pub fn length(value: i32) -> (r: u32)
    ensures
        r == magnitude(value as int),
{
    if value < 0 {
        if value == i32::MIN {
            2147483648u32
        } else {
            (-value) as u32
        }
    } else {
        value as u32
    }
}

impl Dimension {
    /// Creates a new dimension; a negative length counts by its absolute
    /// value
    pub fn new(width: i32, height: i32) -> (dimension: Dimension)
        ensures
            dimension.width == magnitude(width as int),
            dimension.height == magnitude(height as int),
    {
        Dimension { width: length(width), height: length(height) }
    }

    /// Returns the width
    pub fn width(&self) -> (width: u32)
        ensures
            width == self.width,
    {
        self.width
    }

    /// Returns the height
    pub fn height(&self) -> (height: u32)
        ensures
            height == self.height,
    {
        self.height
    }
}

impl Default for Dimension {
    /// Creates a new zero sized dimension
    fn default() -> (dimension: Dimension)
        ensures
            dimension == (Dimension { width: 0, height: 0 }),
    {
        Dimension { width: 0, height: 0 }
    }
}

} // verus!
