//! The capability that every shape of drawn region offers.

use vstd::prelude::*;
use crate::intersection::{Clipping, LineIntersection};
use crate::point::Point;

verus! {

/// The part of a component's domain in which the component has drawn
/// something.
///
/// A shape says which grid points it contains and names four outer bounds.
/// To be well formed, it must contain no point outside those bounds.
///
/// Coordinates count grid units from the left border of the domain to the
/// right, and from its bottom border upwards.
pub trait DrawnRegion: Sized {
    /// What the shape needs to hold of itself before it can be asked
    /// anything.
    spec fn well_formed(&self) -> bool;

    /// Whether `point` belongs to the region; the boundary belongs to it.
    spec fn contains(&self, point: Point) -> bool;

    /// No point to the left of this bound belongs to the region.
    spec fn left_bound(&self) -> int;

    /// No point below this bound belongs to the region.
    spec fn bottom_bound(&self) -> int;

    /// No point to the right of this bound belongs to the region.
    spec fn right_bound(&self) -> int;

    /// No point above this bound belongs to the region.
    spec fn top_bound(&self) -> int;

    /// Whether the shape can clip segments.
    spec fn clips_lines(&self) -> bool;

    /// How the directed segment from `from` to `to` lies with respect to a
    /// shape that can clip segments.
    spec fn clipping(&self, from: Point, to: Point) -> Clipping;

    /// Every point of a well-formed region lies within its four bounds.
    proof fn lemma_contained_within_bounds(&self, point: Point)
        requires
            self.well_formed(),
            self.contains(point),
        ensures
            self.left_bound() <= point.x <= self.right_bound(),
            self.bottom_bound() <= point.y <= self.top_bound(),
    ;

    /// Tells whether `point` lies in the region.
    fn is_inside(&self, point: Point) -> (inside: bool)
        requires
            self.well_formed(),
        ensures
            inside == self.contains(point),
    ;

    /// An independent region that behaves as this one does.
    fn clone(&self) -> (copy: Self)
        ensures
            copy.well_formed() == self.well_formed(),
            forall|point: Point| copy.contains(point) == self.contains(point),
            copy.left_bound() == self.left_bound(),
            copy.bottom_bound() == self.bottom_bound(),
            copy.right_bound() == self.right_bound(),
            copy.top_bound() == self.top_bound(),
            copy.clips_lines() == self.clips_lines(),
            forall|from: Point, to: Point| copy.clipping(from, to) == self.clipping(from, to),
    ;

    /// The left bound.
    fn get_left(&self) -> (bound: i32)
        ensures
            bound == self.left_bound(),
    ;

    /// The bottom bound.
    fn get_bottom(&self) -> (bound: i32)
        ensures
            bound == self.bottom_bound(),
    ;

    /// The right bound.
    fn get_right(&self) -> (bound: i32)
        ensures
            bound == self.right_bound(),
    ;

    /// The top bound.
    fn get_top(&self) -> (bound: i32)
        ensures
            bound == self.top_bound(),
    ;

    /// The right bound minus the left bound.
    fn get_width(&self) -> (width: i64)
        ensures
            width == self.right_bound() - self.left_bound(),
    {
        self.get_right() as i64 - self.get_left() as i64
    }

    /// The top bound minus the bottom bound.
    fn get_height(&self) -> (height: i64)
        ensures
            height == self.top_bound() - self.bottom_bound(),
    {
        self.get_top() as i64 - self.get_bottom() as i64
    }

    /// Tells whether the shape can clip segments.
    fn can_clip_lines(&self) -> (able: bool)
        ensures
            able == self.clips_lines(),
    ;

    /// Classifies the directed segment from `from` to `to` against the
    /// region.
    fn find_line_intersection(&self, from: Point, to: Point) -> (found: LineIntersection)
        requires
            self.well_formed(),
            self.clips_lines(),
        ensures
            found@ == self.clipping(from, to),
    ;
}

} // verus!
