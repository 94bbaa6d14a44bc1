//! Where a segment between grid points meets one side of a rectangle: a
//! stretch of a vertical or of a horizontal grid line.

use vstd::prelude::*;
use crate::arithmetic::{greater, lesser};
use crate::clip::{is_x_dominant, x_dominant};
use crate::fraction::{Fraction, Ratio};
use crate::intersection::{BoundaryPoint, ExactPoint};
use crate::line::{abscissa, abscissa_at, ordinate, ordinate_at};
use crate::point::Point;

verus! {

/// Both ends of the segment lie strictly on one side of the vertical line at
/// `x`, or both strictly below `lo`, or both strictly above `hi`.
pub open spec fn passes_by(x: int, lo: int, hi: int, from: Point, to: Point) -> bool {
    ||| from.x < x && to.x < x
    ||| from.x > x && to.x > x
    ||| from.y < lo && to.y < lo
    ||| from.y > hi && to.y > hi
}

/// For a segment followed along the horizontal axis: the point of its line
/// on the vertical line at `x`, if that point is between `lo` and `hi`.
pub open spec fn meeting_along(x: int, lo: int, hi: int, from: Point, to: Point) -> Option<
    ExactPoint,
> {
    let y = ordinate_at(from, to, x);
    if y.within(lo, hi) {
        Some(ExactPoint { x: Ratio::whole(x), y })
    } else {
        None
    }
}

/// For a segment followed along the vertical axis: between the heights `lo`
/// and `hi` its line sweeps a range of horizontal positions. If `x` is in
/// that range, the line meets the stretch: at its own height there, or, for
/// a vertical segment that lies on the grid line, at the end of the overlap
/// that the segment reaches first.
pub open spec fn meeting_across(x: int, lo: int, hi: int, from: Point, to: Point) -> Option<
    ExactPoint,
> {
    let at_lo = abscissa_at(from, to, lo);
    let at_hi = abscissa_at(from, to, hi);
    if (at_lo.at_most(x) || at_hi.at_most(x)) && (at_lo.at_least(x) || at_hi.at_least(x)) {
        if from.x != to.x {
            Some(ExactPoint { x: Ratio::whole(x), y: ordinate_at(from, to, x) })
        } else if from.y < to.y {
            Some(ExactPoint { x: Ratio::whole(x), y: Ratio::whole(greater(from.y as int, lo)) })
        } else {
            Some(ExactPoint { x: Ratio::whole(x), y: Ratio::whole(lesser(from.y as int, hi)) })
        }
    } else {
        None
    }
}

/// Where the segment from `from` to `to` meets the stretch of the vertical
/// line at `x` between the heights `lo` and `hi`. A stretch with `lo > hi`
/// is empty and met by nothing. A segment of length zero meets the stretch
/// in its one point, if that lies on it.
pub open spec fn vertical_meeting(x: int, lo: int, hi: int, from: Point, to: Point) -> Option<
    ExactPoint,
> {
    if lo > hi || passes_by(x, lo, hi, from, to) {
        None
    } else if x_dominant(from, to) {
        if from.x == to.x {
            Some(ExactPoint { x: Ratio::whole(x), y: Ratio::whole(from.y as int) })
        } else {
            meeting_along(x, lo, hi, from, to)
        }
    } else {
        meeting_across(x, lo, hi, from, to)
    }
}

/// The mirror image of a point, if there is one.
pub open spec fn mirrored(found: Option<ExactPoint>) -> Option<ExactPoint> {
    match found {
        Some(point) => Some(point.transposed()),
        None => None,
    }
}

/// Where the segment from `from` to `to` meets the stretch of the horizontal
/// line at `y` between the positions `lo` and `hi`. A stretch with `lo > hi`
/// is empty and met by nothing. A segment of length zero meets the stretch
/// in its one point, if that lies on it.
pub open spec fn horizontal_meeting(y: int, lo: int, hi: int, from: Point, to: Point) -> Option<
    ExactPoint,
> {
    if lo > hi || passes_by(y, lo, hi, from.transposed(), to.transposed()) {
        None
    } else if x_dominant(from, to) {
        if from.x == to.x {
            Some(ExactPoint { x: Ratio::whole(from.x as int), y: Ratio::whole(y) })
        } else {
            mirrored(meeting_across(y, lo, hi, from.transposed(), to.transposed()))
        }
    } else {
        mirrored(meeting_along(y, lo, hi, from.transposed(), to.transposed()))
    }
}

/// The mathematical value of a point that may have been found.
pub open spec fn value_of(found: Option<BoundaryPoint>) -> Option<ExactPoint> {
    match found {
        Some(point) => Some(point@),
        None => None,
    }
}

fn is_passing_by(x: i32, lo: i32, hi: i32, from: Point, to: Point) -> (passing: bool)
    ensures
        passing == passes_by(x as int, lo as int, hi as int, from, to),
{
    (from.x < x && to.x < x) || (from.x > x && to.x > x) || (from.y < lo && to.y < lo) || (from.y
        > hi && to.y > hi)
}

fn find_meeting_along(x: i32, lo: i32, hi: i32, from: Point, to: Point) -> (found: Option<
    BoundaryPoint,
>)
    requires
        from.x != to.x,
    ensures
        value_of(found) == meeting_along(x as int, lo as int, hi as int, from, to),
{
    let y = ordinate(from, to, x);
    if y.within(lo, hi) {
        Some(BoundaryPoint { x: Fraction::whole(x), y })
    } else {
        None
    }
}

fn find_meeting_across(x: i32, lo: i32, hi: i32, from: Point, to: Point) -> (found: Option<
    BoundaryPoint,
>)
    requires
        from.y != to.y,
    ensures
        value_of(found) == meeting_across(x as int, lo as int, hi as int, from, to),
{
    let at_lo = abscissa(from, to, lo);
    let at_hi = abscissa(from, to, hi);
    if (at_lo.at_most(x) || at_hi.at_most(x)) && (at_lo.at_least(x) || at_hi.at_least(x)) {
        if from.x != to.x {
            Some(BoundaryPoint { x: Fraction::whole(x), y: ordinate(from, to, x) })
        } else if from.y < to.y {
            let y = if from.y >= lo {
                from.y
            } else {
                lo
            };
            Some(BoundaryPoint { x: Fraction::whole(x), y: Fraction::whole(y) })
        } else {
            let y = if from.y <= hi {
                from.y
            } else {
                hi
            };
            Some(BoundaryPoint { x: Fraction::whole(x), y: Fraction::whole(y) })
        }
    } else {
        None
    }
}

fn mirror(found: Option<BoundaryPoint>) -> (turned: Option<BoundaryPoint>)
    ensures
        value_of(turned) == mirrored(value_of(found)),
{
    match found {
        Some(point) => Some(point.transpose()),
        None => None,
    }
}

/// Finds where the segment from `from` to `to` meets the stretch of the
/// vertical line at `vert_x` between `vert_min_y` and `vert_max_y`.
pub fn find_vertical_line_intersection(
    vert_x: i32,
    vert_min_y: i32,
    vert_max_y: i32,
    from: Point,
    to: Point,
) -> (found: Option<BoundaryPoint>)
    ensures
        value_of(found) == vertical_meeting(
            vert_x as int,
            vert_min_y as int,
            vert_max_y as int,
            from,
            to,
        ),
{
    if vert_min_y > vert_max_y || is_passing_by(vert_x, vert_min_y, vert_max_y, from, to) {
        None
    } else if is_x_dominant(from, to) {
        if from.x == to.x {
            Some(BoundaryPoint { x: Fraction::whole(vert_x), y: Fraction::whole(from.y) })
        } else {
            find_meeting_along(vert_x, vert_min_y, vert_max_y, from, to)
        }
    } else {
        find_meeting_across(vert_x, vert_min_y, vert_max_y, from, to)
    }
}

/// Finds where the segment from `from` to `to` meets the stretch of the
/// horizontal line at `hor_y` between `hor_min_x` and `hor_max_x`.
pub fn find_horizontal_line_intersection(
    hor_y: i32,
    hor_min_x: i32,
    hor_max_x: i32,
    from: Point,
    to: Point,
) -> (found: Option<BoundaryPoint>)
    ensures
        value_of(found) == horizontal_meeting(
            hor_y as int,
            hor_min_x as int,
            hor_max_x as int,
            from,
            to,
        ),
{
    let turned_from = from.transpose();
    let turned_to = to.transpose();
    if hor_min_x > hor_max_x || is_passing_by(
        hor_y,
        hor_min_x,
        hor_max_x,
        turned_from,
        turned_to,
    ) {
        None
    } else if is_x_dominant(from, to) {
        if from.x == to.x {
            Some(BoundaryPoint { x: Fraction::whole(from.x), y: Fraction::whole(hor_y) })
        } else {
            mirror(find_meeting_across(hor_y, hor_min_x, hor_max_x, turned_from, turned_to))
        }
    } else {
        mirror(find_meeting_along(hor_y, hor_min_x, hor_max_x, turned_from, turned_to))
    }
}

} // verus!
