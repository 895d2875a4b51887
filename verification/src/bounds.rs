//! Axis-aligned bounding boxes.

use crate::dimension::Dimension;
use crate::position::Position;
use vstd::prelude::*;

verus! {

/// A 2D bounding box
#[derive(Clone, Copy, Debug, PartialEq, Eq, Structural)]
pub struct Bounds {
    /// The lower bound on the x axis
    pub left: i64,
    /// The upper bound on the x axis
    pub right: i64,
    /// The lower bound on the y axis
    pub bottom: i64,
    /// The upper bound on the y axis
    pub top: i64,
}

/// The smaller of two values.
pub open spec fn lower(a: int, b: int) -> int {
    if a > b {
        b
    } else {
        a
    }
}

/// The larger of two values.
pub open spec fn upper(a: int, b: int) -> int {
    if a > b {
        a
    } else {
        b
    }
}

impl Bounds {
    /// Whether the lower bound does not exceed the upper bound on either
    /// axis.
    pub open spec fn wf(&self) -> bool {
        self.left <= self.right && self.bottom <= self.top
    }

    /// The box that a widget of the given size covers when it is placed at
    /// the given position: from the position up to, and including, the
    /// position plus the size.
    pub open spec fn spanned(position: Position, size: Dimension) -> Bounds {
        Bounds {
            left: position.x as i64,
            right: (position.x + size.width) as i64,
            bottom: position.y as i64,
            top: (position.y + size.height) as i64,
        }
    }

    /// Whether the position lies in the box, its edges included.
    pub open spec fn holds(&self, position: Position) -> bool {
        self.left <= position.x <= self.right && self.bottom <= position.y <= self.top
    }

    /// Creates a new 2D bounding box between two x and two y coordinates,
    /// given in either order
    pub fn new(x1: i64, x2: i64, y1: i64, y2: i64) -> (bounds: Bounds)
        ensures
            bounds.wf(),
            bounds.left == lower(x1 as int, x2 as int),
            bounds.right == upper(x1 as int, x2 as int),
            bounds.bottom == lower(y1 as int, y2 as int),
            bounds.top == upper(y1 as int, y2 as int),
    {
        let (left, right) = if x1 > x2 {
            (x2, x1)
        } else {
            (x1, x2)
        };
        let (bottom, top) = if y1 > y2 {
            (y2, y1)
        } else {
            (y1, y2)
        };
        Bounds { left, right, bottom, top }
    }

    /// Creates the bounding box of a widget from its position and size
    pub fn span(position: &Position, size: &Dimension) -> (bounds: Bounds)
        ensures
            bounds == Bounds::spanned(*position, *size),
            bounds.wf(),
    {
        let x: i64 = position.x as i64;
        let y: i64 = position.y as i64;
        Bounds::new(x, x + size.width as i64, y, y + size.height as i64)
    }

    /// Checks whether a position lies within the bounds
    pub fn contains_position(&self, position: &Position) -> (within: bool)
        ensures
            within == self.holds(*position),
    {
        self.left <= position.x as i64 && position.x as i64 <= self.right
            && self.bottom <= position.y as i64 && position.y as i64 <= self.top
    }
}

impl Default for Bounds {
    /// Creates a new bounding box at the origin with a zero size
    fn default() -> (bounds: Bounds)
        ensures
            bounds == (Bounds { left: 0, right: 0, bottom: 0, top: 0 }),
    {
        Bounds { left: 0, right: 0, bottom: 0, top: 0 }
    }
}

} // verus!
