//! The part of a widget's style that the runtime itself reads.

use crate::dimension::{length, magnitude};
use vstd::prelude::*;

verus! {

/// The margins around the content of a widget
#[derive(Clone, Copy, Debug, PartialEq, Eq, Structural)]
pub struct Margins {
    /// The left margin
    pub left: u32,
    /// The right margin
    pub right: u32,
    /// The top margin
    pub top: u32,
    /// The bottom margin
    pub bottom: u32,
}

impl Margins {
    /// The sum of the left and the right margin.
    pub open spec fn spec_horizontal(&self) -> int {
        self.left + self.right
    }

    /// The sum of the top and the bottom margin.
    pub open spec fn spec_vertical(&self) -> int {
        self.top + self.bottom
    }

    /// Creates new margins; a negative margin counts by its absolute value
    pub fn new(left: i32, right: i32, bottom: i32, top: i32) -> (margins: Margins)
        ensures
            margins.left == magnitude(left as int),
            margins.right == magnitude(right as int),
            margins.bottom == magnitude(bottom as int),
            margins.top == magnitude(top as int),
    {
        Margins {
            left: length(left),
            right: length(right),
            top: length(top),
            bottom: length(bottom),
        }
    }

    /// Returns the left margin
    pub fn left(&self) -> (left: u32)
        ensures
            left == self.left,
    {
        self.left
    }

    /// Returns the right margin
    pub fn right(&self) -> (right: u32)
        ensures
            right == self.right,
    {
        self.right
    }

    /// Returns the top margin
    pub fn top(&self) -> (top: u32)
        ensures
            top == self.top,
    {
        self.top
    }

    /// Returns the bottom margin
    pub fn bottom(&self) -> (bottom: u32)
        ensures
            bottom == self.bottom,
    {
        self.bottom
    }

    /// Returns the sum of the left and the right margin
    pub fn horizontal(&self) -> (sum: u64)
        ensures
            sum == self.spec_horizontal(),
    {
        self.left as u64 + self.right as u64
    }

    /// Returns the sum of the top and the bottom margin
    pub fn vertical(&self) -> (sum: u64)
        ensures
            sum == self.spec_vertical(),
    {
        self.top as u64 + self.bottom as u64
    }
}

impl Default for Margins {
    /// Creates margins of zero width
    fn default() -> (margins: Margins)
        ensures
            margins == (Margins { left: 0, right: 0, top: 0, bottom: 0 }),
    {
        Margins { left: 0, right: 0, top: 0, bottom: 0 }
    }
}

} // verus!
