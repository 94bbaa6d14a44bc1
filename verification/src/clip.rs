//! Clipping a directed segment between grid points against a rectangle.
//!
//! A segment with both ends inside needs no more work. Any other segment is
//! followed along its dominant axis, the one on which it extends further:
//! the line through it is taken as a function of the position on that axis,
//! and looked at where it passes the two sides of the rectangle that stand
//! across that axis. Here this is written out for a horizontal dominant
//! axis; a segment that extends further vertically is clipped in the plane
//! mirrored in the diagonal, in which the two axes change their roles.
//!
//! A degenerate rectangle, one with a pair of opposite bounds the wrong way
//! round, is an empty shape: every segment is fully outside of it.

use vstd::prelude::*;
use crate::arithmetic::lemma_scale_keeps_order;
use crate::fraction::{Fraction, Ratio};
use crate::intersection::{BoundaryPoint, Clipping, ExactPoint, LineIntersection};
use crate::line::{abscissa, abscissa_at, ordinate, ordinate_at};
use crate::point::Point;
use crate::proofs::lemma_level_line;
use crate::rectangle::RectangularDrawnRegion;

verus! {

/// The distance of `v` from zero.
pub open spec fn magnitude(v: int) -> int {
    if v >= 0 {
        v
    } else {
        -v
    }
}

/// The segment extends at least as far horizontally as vertically.
pub open spec fn x_dominant(from: Point, to: Point) -> bool {
    magnitude(to.x - from.x) >= magnitude(to.y - from.y)
}

/// Tells whether the segment extends at least as far horizontally as
/// vertically.
pub fn is_x_dominant(from: Point, to: Point) -> (dominant: bool)
    ensures
        dominant == x_dominant(from, to),
{
    let dx: i64 = to.x as i64 - from.x as i64;
    let dy: i64 = to.y as i64 - from.y as i64;
    let width: i64 = if dx >= 0 { dx } else { -dx };
    let height: i64 = if dy >= 0 { dy } else { -dy };
    width >= height
}

impl RectangularDrawnRegion {
    /// Both ends of the segment lie strictly beyond one and the same bound,
    /// so that the segment cannot reach the rectangle.
    pub open spec fn misses_bounds(self, from: Point, to: Point) -> bool {
        ||| from.x < self.left && to.x < self.left
        ||| from.y < self.bottom && to.y < self.bottom
        ||| from.x > self.right && to.x > self.right
        ||| from.y > self.top && to.y > self.top
    }

    /// Between the left and the right bound, the line through the segment
    /// stays strictly below the bottom bound or strictly above the top bound.
    pub open spec fn line_misses(self, from: Point, to: Point) -> bool {
        let at_left = ordinate_at(from, to, self.left as int);
        let at_right = ordinate_at(from, to, self.right as int);
        ||| !at_left.at_least(self.bottom as int) && !at_right.at_least(self.bottom as int)
        ||| !at_left.at_most(self.top as int) && !at_right.at_most(self.top as int)
    }

    /// Where a segment that extends further horizontally leaves the
    /// rectangle on its way from `inside` to `outside`: on the vertical side
    /// ahead if the line meets that side, else on the horizontal side ahead.
    pub open spec fn leaving_point(self, inside: Point, outside: Point) -> ExactPoint {
        let side = if outside.x > inside.x {
            self.right
        } else {
            self.left
        };
        let at_side = ordinate_at(inside, outside, side as int);
        if at_side.within(self.bottom as int, self.top as int) {
            ExactPoint { x: Ratio::whole(side as int), y: at_side }
        } else {
            let level = if outside.y > inside.y {
                self.top
            } else {
                self.bottom
            };
            ExactPoint {
                x: abscissa_at(inside, outside, level as int),
                y: Ratio::whole(level as int),
            }
        }
    }

    /// The end of the chord, the part of the line within a proper rectangle,
    /// that is next to the vertical side `side`: on that side if the line passes
    /// it between bottom and top; on the bottom if the line is below the
    /// bottom there; on the top if it is above the top there.
    pub open spec fn chord_end(self, from: Point, to: Point, side: int) -> ExactPoint {
        let at_side = ordinate_at(from, to, side);
        if !at_side.at_least(self.bottom as int) {
            ExactPoint {
                x: abscissa_at(from, to, self.bottom as int),
                y: Ratio::whole(self.bottom as int),
            }
        } else if !at_side.at_most(self.top as int) {
            ExactPoint {
                x: abscissa_at(from, to, self.top as int),
                y: Ratio::whole(self.top as int),
            }
        } else {
            ExactPoint { x: Ratio::whole(side), y: at_side }
        }
    }

    /// The outcome, against a proper rectangle, for a segment that extends
    /// at least as far horizontally as vertically and does not have both
    /// ends inside.
    ///
    /// With one end inside, the segment leaves or enters where the segment
    /// from the end inside to the end outside leaves. With both ends
    /// outside, it is `FullyOutside` if both ends lie beyond one and the
    /// same bound or the line passes below or above the rectangle;
    /// otherwise it crosses. The order of the two points goes by the
    /// direction of travel on the dominant axis: a segment that runs to the
    /// right crosses from the end of the chord at the left side to the end
    /// at the right side, any other the opposite way.
    pub open spec fn clip_along_x(self, from: Point, to: Point) -> Clipping {
        if self.is_within_bounds(from) {
            Clipping::Exits { point: self.leaving_point(from, to) }
        } else if self.is_within_bounds(to) {
            Clipping::Enters { point: self.leaving_point(to, from) }
        } else if self.misses_bounds(from, to) || self.line_misses(from, to) {
            Clipping::FullyOutside
        } else if to.x > from.x {
            Clipping::Crosses {
                entrance: self.chord_end(from, to, self.left as int),
                exit: self.chord_end(from, to, self.right as int),
            }
        } else {
            Clipping::Crosses {
                entrance: self.chord_end(from, to, self.right as int),
                exit: self.chord_end(from, to, self.left as int),
            }
        }
    }

    /// The outcome of clipping the directed segment from `from` to `to`
    /// against this rectangle.
    ///
    /// A degenerate rectangle contains no point and has no sides, so every
    /// segment is `FullyOutside` of it.
    pub open spec fn clip(self, from: Point, to: Point) -> Clipping {
        if !self.is_proper() {
            Clipping::FullyOutside
        } else if self.is_within_bounds(from) && self.is_within_bounds(to) {
            Clipping::FullyInside
        } else if x_dominant(from, to) {
            self.clip_along_x(from, to)
        } else {
            self.transposed().clip_along_x(from.transposed(), to.transposed()).transposed()
        }
    }
}

impl RectangularDrawnRegion {
    /// Tells whether both ends of the segment lie strictly beyond one and
    /// the same bound.
    fn bounds_missed(&self, from: Point, to: Point) -> (missed: bool)
        ensures
            missed == self.misses_bounds(from, to),
    {
        (from.x < self.left && to.x < self.left) || (from.y < self.bottom && to.y < self.bottom)
            || (from.x > self.right && to.x > self.right) || (from.y > self.top && to.y
            > self.top)
    }

    /// Computes [`Self::leaving_point`].
    fn find_leaving_point(&self, inside: Point, outside: Point) -> (p: BoundaryPoint)
        requires
            self.is_within_bounds(inside),
            !self.is_within_bounds(outside),
            x_dominant(inside, outside),
        ensures
            p@ == self.leaving_point(inside, outside),
    {
        let side = if outside.x > inside.x {
            self.right
        } else {
            self.left
        };
        let at_side = ordinate(inside, outside, side);
        if at_side.within(self.bottom, self.top) {
            BoundaryPoint { x: Fraction::whole(side), y: at_side }
        } else {
            let level = if outside.y > inside.y {
                self.top
            } else {
                self.bottom
            };
            proof {
                if inside.y == outside.y {
                    let den = at_side@.den;
                    lemma_level_line(inside, outside, side as int);
                    lemma_scale_keeps_order(self.bottom as int, inside.y as int, den);
                    lemma_scale_keeps_order(inside.y as int, self.top as int, den);
                }
            }
            BoundaryPoint { x: abscissa(inside, outside, level), y: Fraction::whole(level) }
        }
    }

    /// Computes [`Self::chord_end`] where the line does not miss the
    /// rectangle.
    fn find_chord_end(&self, from: Point, to: Point, side: i32) -> (p: BoundaryPoint)
        requires
            from.x != to.x,
            side == self.left || side == self.right,
            !self.line_misses(from, to),
        ensures
            p@ == self.chord_end(from, to, side as int),
    {
        let at_side = ordinate(from, to, side);
        proof {
            if from.y == to.y {
                lemma_level_line(from, to, self.left as int);
                lemma_level_line(from, to, self.right as int);
            }
        }
        if !at_side.at_least(self.bottom) {
            BoundaryPoint { x: abscissa(from, to, self.bottom), y: Fraction::whole(self.bottom) }
        } else if !at_side.at_most(self.top) {
            BoundaryPoint { x: abscissa(from, to, self.top), y: Fraction::whole(self.top) }
        } else {
            BoundaryPoint { x: Fraction::whole(side), y: at_side }
        }
    }

    /// Tells whether the line through the segment passes below or above the
    /// rectangle.
    fn line_missed(&self, from: Point, to: Point) -> (missed: bool)
        requires
            from.x != to.x,
        ensures
            missed == self.line_misses(from, to),
    {
        let at_left = ordinate(from, to, self.left);
        let at_right = ordinate(from, to, self.right);
        (!at_left.at_least(self.bottom) && !at_right.at_least(self.bottom)) || (!at_left.at_most(
            self.top,
        ) && !at_right.at_most(self.top))
    }

    /// Computes [`Self::clip_along_x`].
    pub(crate) fn find_along_x(&self, from: Point, to: Point) -> (found: LineIntersection)
        requires
            x_dominant(from, to),
            !(self.is_within_bounds(from) && self.is_within_bounds(to)),
        ensures
            found@ == self.clip_along_x(from, to),
    {
        if self.within_bounds(from) {
            LineIntersection::Exits { point: self.find_leaving_point(from, to) }
        } else if self.within_bounds(to) {
            proof {
                assert(x_dominant(to, from));
            }
            LineIntersection::Enters { point: self.find_leaving_point(to, from) }
        } else if self.bounds_missed(from, to) {
            LineIntersection::FullyOutside
        } else if self.line_missed(from, to) {
            LineIntersection::FullyOutside
        } else if to.x > from.x {
            LineIntersection::Crosses {
                entrance: self.find_chord_end(from, to, self.left),
                exit: self.find_chord_end(from, to, self.right),
            }
        } else {
            LineIntersection::Crosses {
                entrance: self.find_chord_end(from, to, self.right),
                exit: self.find_chord_end(from, to, self.left),
            }
        }
    }
}

} // verus!
