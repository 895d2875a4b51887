//! Positions on the integer grid on which widgets are placed.

use vstd::prelude::*;

verus! {

/// A 2D position
#[derive(Clone, Copy, Debug, PartialEq, Eq, Structural)]
pub struct Position {
    /// The x coordinate
    pub x: i32,
    /// The y coordinate
    pub y: i32,
}

/// The coordinate nearest to `value`: `value` itself where it fits, else the
/// smallest or the largest coordinate.
pub open spec fn clamp(value: int) -> i32 {
    if value < i32::MIN {
        i32::MIN
    } else if value > i32::MAX {
        i32::MAX
    } else {
        value as i32
    }
}

/// Brings a value into the range of coordinates
pub fn clamp_coordinate(value: i128) -> (coordinate: i32)
    ensures
        coordinate == clamp(value as int),
{
    if value < -2147483648 {
        i32::MIN
    } else if value > 2147483647 {
        i32::MAX
    } else {
        value as i32
    }
}

impl Position {
    /// Creates a new position
    pub fn new(x: i32, y: i32) -> (position: Position)
        ensures
            position == (Position { x, y }),
    {
        Position { x, y }
    }
}

impl Default for Position {
    /// Creates a new position at the origin
    fn default() -> (position: Position)
        ensures
            position == (Position { x: 0, y: 0 }),
    {
        Position { x: 0, y: 0 }
    }
}

} // verus!
