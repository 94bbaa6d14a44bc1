//! Axis-aligned rectangles.

use vstd::prelude::*;
use crate::clip::is_x_dominant;
use crate::intersection::{Clipping, LineIntersection};
use crate::point::Point;
use crate::region::DrawnRegion;

verus! {

/// An unrotated rectangular drawn region, given by its four bounds.
///
/// A rectangle whose left bound exceeds its right bound, or whose bottom
/// bound exceeds its top bound, is degenerate: it is a valid shape, which
/// contains no point and which no segment enters, leaves or crosses.
#[derive(Clone, Copy, Debug, PartialEq, Eq, Structural)]
pub struct RectangularDrawnRegion {
    pub left: i32,
    pub bottom: i32,
    pub right: i32,
    pub top: i32,
}

impl RectangularDrawnRegion {
    /// The rectangle with the given bounds.
    pub fn new(left: i32, bottom: i32, right: i32, top: i32) -> (r: RectangularDrawnRegion)
        ensures
            r.left == left,
            r.bottom == bottom,
            r.right == right,
            r.top == top,
    {
        RectangularDrawnRegion { left, bottom, right, top }
    }

    /// Neither pair of opposite bounds is the wrong way round.
    pub open spec fn is_proper(self) -> bool {
        self.left <= self.right && self.bottom <= self.top
    }

    /// The point lies within all four bounds, the bounds included.
    pub open spec fn is_within_bounds(self, point: Point) -> bool {
        self.left <= point.x <= self.right && self.bottom <= point.y <= self.top
    }

    /// The mirror image of this rectangle in the diagonal `x == y`.
    pub open spec fn transposed(self) -> RectangularDrawnRegion {
        RectangularDrawnRegion {
            left: self.bottom,
            bottom: self.left,
            right: self.top,
            top: self.right,
        }
    }

    /// Swaps the roles of the two axes.
    pub fn transpose(&self) -> (r: RectangularDrawnRegion)
        ensures
            r == self.transposed(),
    {
        RectangularDrawnRegion {
            left: self.bottom,
            bottom: self.left,
            right: self.top,
            top: self.right,
        }
    }

    pub(crate) fn within_bounds(&self, point: Point) -> (inside: bool)
        ensures
            inside == self.is_within_bounds(point),
    {
        point.x >= self.left && point.x <= self.right && point.y >= self.bottom && point.y
            <= self.top
    }
}

impl DrawnRegion for RectangularDrawnRegion {
    /// Every rectangle can be queried, a degenerate one too.
    open spec fn well_formed(&self) -> bool {
        true
    }

    open spec fn contains(&self, point: Point) -> bool {
        self.is_within_bounds(point)
    }

    open spec fn left_bound(&self) -> int {
        self.left as int
    }

    open spec fn bottom_bound(&self) -> int {
        self.bottom as int
    }

    open spec fn right_bound(&self) -> int {
        self.right as int
    }

    open spec fn top_bound(&self) -> int {
        self.top as int
    }

    open spec fn clips_lines(&self) -> bool {
        true
    }

    open spec fn clipping(&self, from: Point, to: Point) -> Clipping {
        self.clip(from, to)
    }

    proof fn lemma_contained_within_bounds(&self, point: Point) {
    }

    fn is_inside(&self, point: Point) -> (inside: bool) {
        self.within_bounds(point)
    }

    fn clone(&self) -> (copy: Self) {
        *self
    }

    fn get_left(&self) -> (bound: i32) {
        self.left
    }

    fn get_bottom(&self) -> (bound: i32) {
        self.bottom
    }

    fn get_right(&self) -> (bound: i32) {
        self.right
    }

    fn get_top(&self) -> (bound: i32) {
        self.top
    }

    fn can_clip_lines(&self) -> (able: bool) {
        true
    }

    fn find_line_intersection(&self, from: Point, to: Point) -> (found: LineIntersection) {
        if self.left > self.right || self.bottom > self.top {
            LineIntersection::FullyOutside
        } else if self.within_bounds(from) && self.within_bounds(to) {
            LineIntersection::FullyInside
        } else if is_x_dominant(from, to) {
            self.find_along_x(from, to)
        } else {
            self.transpose().find_along_x(from.transpose(), to.transpose()).transpose()
        }
    }
}

} // verus!
