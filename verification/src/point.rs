//! Grid points.

use vstd::prelude::*;

verus! {

/// A point of the drawing grid. Both coordinates are whole numbers of grid
/// units; the unit itself is the caller's choice.
#[derive(Clone, Copy, Debug, PartialEq, Eq, Structural)]
pub struct Point {
    pub x: i32,
    pub y: i32,
}

impl Point {
    /// The point with the given coordinates.
    pub fn new(x: i32, y: i32) -> (p: Point)
        ensures
            p.x == x,
            p.y == y,
    {
        Point { x, y }
    }

    /// The horizontal coordinate.
    pub fn get_x(&self) -> (x: i32)
        ensures
            x == self.x,
    {
        self.x
    }

    /// The vertical coordinate.
    pub fn get_y(&self) -> (y: i32)
        ensures
            y == self.y,
    {
        self.y
    }

    /// The mirror image of this point in the diagonal `x == y`.
    pub open spec fn transposed(self) -> Point {
        Point { x: self.y, y: self.x }
    }

    /// Swaps the two coordinates.
    pub fn transpose(&self) -> (p: Point)
        ensures
            p == self.transposed(),
    {
        Point { x: self.y, y: self.x }
    }
}

} // verus!
