//! Points with exact coordinates, and how they lie to segments and
//! rectangles.

use vstd::prelude::*;
use crate::arithmetic::{greater, lesser};
use crate::fraction::Ratio;
use crate::intersection::{Clipping, ExactPoint};
use crate::point::Point;
use crate::rectangle::RectangularDrawnRegion;

verus! {

/// The point lies on the line through `from` and `to`: seen from `from`, it
/// is displaced in the direction of `to`.
pub open spec fn on_line(from: Point, to: Point, point: ExactPoint) -> bool {
    (to.x - from.x) * (point.y.num - from.y * point.y.den) * point.x.den == (to.y - from.y) * (
    point.x.num - from.x * point.x.den) * point.y.den
}

/// The point lies on the segment between `from` and `to`, the ends
/// included: on the line through them, and in both coordinates between
/// them.
pub open spec fn on_segment(from: Point, to: Point, point: ExactPoint) -> bool {
    &&& on_line(from, to, point)
    &&& point.x.within(lesser(from.x as int, to.x as int), greater(from.x as int, to.x as int))
    &&& point.y.within(lesser(from.y as int, to.y as int), greater(from.y as int, to.y as int))
}

/// The grid point as a point with exact coordinates.
pub open spec fn exact(point: Point) -> ExactPoint {
    ExactPoint { x: Ratio::whole(point.x as int), y: Ratio::whole(point.y as int) }
}

impl RectangularDrawnRegion {
    /// The point lies in the rectangle, the sides included.
    pub open spec fn holds(self, point: ExactPoint) -> bool {
        point.x.within(self.left as int, self.right as int) && point.y.within(
            self.bottom as int,
            self.top as int,
        )
    }

    /// The point lies on one of the four sides of the rectangle.
    pub open spec fn on_boundary(self, point: ExactPoint) -> bool {
        &&& self.holds(point)
        &&& (point.x.is_whole(self.left as int) || point.x.is_whole(self.right as int)
            || point.y.is_whole(self.bottom as int) || point.y.is_whole(self.top as int))
    }

    /// The point is one in which the segment from `from` to `to` meets the
    /// boundary of the rectangle.
    pub open spec fn meets_boundary_at(self, from: Point, to: Point, point: ExactPoint) -> bool {
        point.well_formed() && self.on_boundary(point) && on_segment(from, to, point)
    }

    /// The outcome fits where the two ends of the segment lie: both inside,
    /// one inside and one outside, or both outside. A point of entering or
    /// leaving lies on a side of the rectangle and on the segment; so do the
    /// two points of a crossing.
    pub open spec fn fits(self, from: Point, to: Point, outcome: Clipping) -> bool {
        match outcome {
            Clipping::FullyInside => self.is_within_bounds(from) && self.is_within_bounds(to),
            Clipping::FullyOutside => !self.is_within_bounds(from) && !self.is_within_bounds(to),
            Clipping::Enters { point } => {
                &&& !self.is_within_bounds(from)
                &&& self.is_within_bounds(to)
                &&& self.meets_boundary_at(from, to, point)
            },
            Clipping::Exits { point } => {
                &&& self.is_within_bounds(from)
                &&& !self.is_within_bounds(to)
                &&& self.meets_boundary_at(from, to, point)
            },
            Clipping::Crosses { entrance, exit } => {
                &&& !self.is_within_bounds(from)
                &&& !self.is_within_bounds(to)
                &&& self.meets_boundary_at(from, to, entrance)
                &&& self.meets_boundary_at(from, to, exit)
            },
        }
    }
}

/// How far `point` is displaced horizontally, and how far vertically, from
/// `start`; each as a numerator over the product of the two denominators of
/// that coordinate.
pub open spec fn displacement(start: ExactPoint, point: ExactPoint) -> (int, int) {
    (
        point.x.num * start.x.den - start.x.num * point.x.den,
        point.y.num * start.y.den - start.y.num * point.y.den,
    )
}

/// On the way from `from` to `to`, the point `later` does not come before
/// the point `earlier`: in neither coordinate does it lie back against the
/// direction of travel.
pub open spec fn not_before(from: Point, to: Point, earlier: ExactPoint, later: ExactPoint) -> bool {
    displacement(earlier, later).0 * (to.x - from.x) >= 0 && displacement(earlier, later).1 * (
    to.y - from.y) >= 0
}

/// The part of a segment that lies in the rectangle, as the outcome of
/// clipping tells it: the two ends of that part, or `None` where no point
/// of the segment lies in the rectangle.
pub open spec fn part_inside(from: Point, to: Point, outcome: Clipping) -> Option<
    (ExactPoint, ExactPoint),
> {
    match outcome {
        Clipping::FullyInside => Some((exact(from), exact(to))),
        Clipping::FullyOutside => None,
        Clipping::Enters { point } => Some((point, exact(to))),
        Clipping::Exits { point } => Some((exact(from), point)),
        Clipping::Crosses { entrance, exit } => Some((entrance, exit)),
    }
}

/// The point lies on the given part of the way from `from` to `to`: not
/// before its first end and not after its last.
pub open spec fn on_part(
    from: Point,
    to: Point,
    part: Option<(ExactPoint, ExactPoint)>,
    point: ExactPoint,
) -> bool {
    match part {
        Some((first, last)) => not_before(from, to, first, point) && not_before(
            from,
            to,
            point,
            last,
        ),
        None => false,
    }
}

/// The point is one in which the segment from `from` to `to` meets the
/// stretch of the vertical line at `x` between the heights `lo` and `hi`.
pub open spec fn meets_stretch(
    x: int,
    lo: int,
    hi: int,
    from: Point,
    to: Point,
    point: ExactPoint,
) -> bool {
    &&& point.well_formed()
    &&& point.x.is_whole(x)
    &&& point.y.within(lo, hi)
    &&& on_segment(from, to, point)
}

} // verus!
