//! What holds of every rectangle, point and segment.

use vstd::prelude::*;
use crate::arithmetic::{lemma_negated_times, lemma_sum_times};
use crate::clip::x_dominant;
use crate::edge::{horizontal_meeting, passes_by, vertical_meeting};
use crate::geometry::{
    exact, meets_stretch, not_before, on_line, on_part, on_segment, part_inside,
};
use crate::intersection::{Clipping, ExactPoint};
use crate::line::{abscissa_at, ordinate_at};
use crate::point::Point;
use crate::proofs::{
    lemma_across_finds, lemma_along_finds, lemma_between_the_ends,
    lemma_classification_along_x, lemma_degenerate_holds_nothing, lemma_end_is_met,
    lemma_ends_are_on_segment,
    lemma_fully_outside_along_x, lemma_inside_is_held, lemma_meeting_across_is_met,
    lemma_meeting_along_is_met, lemma_ordinate_is_undirected, lemma_part_inside_along_x,
    lemma_rectangle_is_convex, lemma_reversal_along_x, lemma_stretch_is_not_passed_by,
};
use crate::rectangle::RectangularDrawnRegion;
use crate::region::DrawnRegion;

verus! {

/// A rectangle contains no point outside its four bounds.
pub proof fn lemma_inside_is_within_bounds(rect: RectangularDrawnRegion, point: Point)
    requires
        rect.contains(point),
    ensures
        rect.left_bound() <= point.x <= rect.right_bound(),
        rect.bottom_bound() <= point.y <= rect.top_bound(),
{
}

/// A degenerate rectangle contains no point at all, its own corners
/// included.
pub proof fn lemma_degenerate_is_empty(rect: RectangularDrawnRegion, point: Point)
    requires
        !rect.is_proper(),
    ensures
        !rect.contains(point),
{
}

/// The sides of a proper rectangle belong to it: a point on the line of one
/// side, between the two neighbouring sides, is inside.
pub proof fn lemma_boundary_is_inside(rect: RectangularDrawnRegion, point: Point)
    requires
        rect.is_proper(),
        ({
            ||| (point.x == rect.left || point.x == rect.right) && rect.bottom <= point.y
                <= rect.top
            ||| (point.y == rect.bottom || point.y == rect.top) && rect.left <= point.x
                <= rect.right
        }),
    ensures
        rect.contains(point),
{
}

/// Every segment gets an outcome that fits where its ends lie. So a segment
/// with both ends inside is `FullyInside`; one with exactly one end inside
/// `Enters` or `Exits`, in a point of a side and of the segment; and one with
/// both ends outside is `FullyOutside` or `Crosses`, the latter in two such
/// points.
pub proof fn lemma_classification_is_complete(
    rect: RectangularDrawnRegion,
    from: Point,
    to: Point,
)
    ensures
        rect.fits(from, to, rect.clip(from, to)),
{
    if !rect.is_proper() {
    } else if rect.is_within_bounds(from) && rect.is_within_bounds(to) {
    } else if x_dominant(from, to) {
        lemma_classification_along_x(rect, from, to);
    } else {
        let turned = rect.transposed();
        let turned_from = from.transposed();
        let turned_to = to.transposed();
        lemma_classification_along_x(turned, turned_from, turned_to);
        let outcome = turned.clip_along_x(turned_from, turned_to);
        assert(turned.fits(turned_from, turned_to, outcome));
        assert forall|point: ExactPoint|
            turned.meets_boundary_at(
                turned_from,
                turned_to,
                point,
            ) implies rect.meets_boundary_at(from, to, point.transposed()) by {
            assert(on_line(from, to, point.transposed()));
        }
    }
}

/// The line through two points does not depend on the direction in which it
/// is travelled: it meets a vertical line at the same height, written as the
/// same fraction.
pub proof fn lemma_line_is_undirected(from: Point, to: Point, x: int)
    ensures
        ordinate_at(to, from, x) == ordinate_at(from, to, x),
        abscissa_at(to, from, x) == abscissa_at(from, to, x),
{
    lemma_ordinate_is_undirected(from, to, x);
    lemma_ordinate_is_undirected(from.transposed(), to.transposed(), x);
}

/// Whether a point lies on a segment does not depend on the direction in
/// which the segment is travelled.
pub proof fn lemma_on_segment_is_undirected(from: Point, to: Point, point: ExactPoint)
    ensures
        on_segment(to, from, point) == on_segment(from, to, point),
{
    let across = to.x - from.x;
    let height = to.y - from.y;
    let xd = point.x.den;
    let yd = point.y.den;
    let px = point.x.num - from.x * xd;
    let py = point.y.num - from.y * yd;
    let qx = point.x.num - to.x * xd;
    let qy = point.y.num - to.y * yd;
    let both = across * height;
    lemma_sum_times(from.x as int, across, xd);
    lemma_sum_times(from.y as int, height, yd);
    assert(qx == px - across * xd);
    assert(qy == py - height * yd);
    assert((-across) * qy == -(across * py) + both * yd) by (nonlinear_arith)
        requires
            qy == py - height * yd,
            both == across * height,
    ;
    assert((-height) * qx == -(height * px) + both * xd) by (nonlinear_arith)
        requires
            qx == px - across * xd,
            both == across * height,
    ;
    lemma_sum_times(-(across * py), both * yd, xd);
    lemma_sum_times(-(height * px), both * xd, yd);
    lemma_negated_times(across * py, xd);
    lemma_negated_times(height * px, yd);
    assert((both * yd) * xd == (both * xd) * yd) by (nonlinear_arith);
    assert(((from.x - to.x) * qy) * xd - ((from.y - to.y) * qx) * yd == -((across * py) * xd - (
    height * px) * yd));
}

/// Travelling a segment the other way turns entering into leaving and
/// leaving into entering, at the same points: `Enters` becomes `Exits` and
/// back, and the two points of `Crosses` change places.
pub proof fn lemma_reversal_swaps_entering_and_leaving(
    rect: RectangularDrawnRegion,
    from: Point,
    to: Point,
)
    ensures
        rect.clip(to, from) == rect.clip(from, to).reversed(),
{
    if !rect.is_proper() {
    } else if rect.is_within_bounds(from) && rect.is_within_bounds(to) {
    } else if x_dominant(from, to) {
        lemma_reversal_along_x(rect, from, to);
    } else {
        lemma_reversal_along_x(rect.transposed(), from.transposed(), to.transposed());
    }
}

/// No point of a segment that is `FullyOutside` lies in the rectangle.
pub proof fn lemma_fully_outside_has_no_point_inside(
    rect: RectangularDrawnRegion,
    from: Point,
    to: Point,
    point: ExactPoint,
)
    requires
        rect.clip(from, to) == Clipping::FullyOutside,
        point.well_formed(),
        on_segment(from, to, point),
    ensures
        !rect.holds(point),
{
    if !rect.is_proper() {
        lemma_degenerate_holds_nothing(rect, point);
    } else if x_dominant(from, to) {
        lemma_fully_outside_along_x(rect, from, to, point);
    } else {
        assert(on_line(from.transposed(), to.transposed(), point.transposed()));
        lemma_fully_outside_along_x(
            rect.transposed(),
            from.transposed(),
            to.transposed(),
            point.transposed(),
        );
    }
}

/// The outcome of clipping tells which points of the segment lie in the
/// rectangle: those from the entrance, or else from the start, to the exit,
/// or else to the end; all of them for `FullyInside`, none for
/// `FullyOutside`. So a segment is `FullyOutside` exactly when none of its
/// points lies in the rectangle.
pub proof fn lemma_outcome_tells_the_part_inside(
    rect: RectangularDrawnRegion,
    from: Point,
    to: Point,
    point: ExactPoint,
)
    requires
        point.well_formed(),
        on_segment(from, to, point),
    ensures
        rect.holds(point) == on_part(from, to, part_inside(from, to, rect.clip(from, to)), point),
{
    lemma_ends_are_on_segment(from, to);
    lemma_between_the_ends(from, to, point);
    if !rect.is_proper() {
        lemma_degenerate_holds_nothing(rect, point);
    } else if rect.is_within_bounds(from) && rect.is_within_bounds(to) {
        lemma_inside_is_held(rect, from);
        lemma_inside_is_held(rect, to);
        lemma_rectangle_is_convex(rect, from, to, exact(from), point, exact(to));
    } else if x_dominant(from, to) {
        lemma_part_inside_along_x(rect, from, to, point);
    } else {
        assert(on_line(from.transposed(), to.transposed(), point.transposed()));
        lemma_part_inside_along_x(
            rect.transposed(),
            from.transposed(),
            to.transposed(),
            point.transposed(),
        );
    }
}

/// Of the two points in which a segment crosses a rectangle, the entrance
/// does not come after the exit on the way from `from` to `to`.
pub proof fn lemma_entrance_comes_first(rect: RectangularDrawnRegion, from: Point, to: Point)
    requires
        rect.clip(from, to) is Crosses,
    ensures
        not_before(
            from,
            to,
            rect.clip(from, to)->entrance,
            rect.clip(from, to)->exit,
        ),
{
    lemma_classification_is_complete(rect, from, to);
    lemma_outcome_tells_the_part_inside(rect, from, to, rect.clip(from, to)->entrance);
}

/// A point in which a segment is found to meet a stretch of a vertical line
/// lies on that stretch and on the segment.
pub proof fn lemma_vertical_meeting_is_met(x: int, lo: int, hi: int, from: Point, to: Point)
    ensures
        vertical_meeting(x, lo, hi, from, to) matches Some(point) ==> meets_stretch(
            x,
            lo,
            hi,
            from,
            to,
            point,
        ),
{
    if lo > hi || passes_by(x, lo, hi, from, to) {
    } else if x_dominant(from, to) {
        if from.x != to.x {
            lemma_meeting_along_is_met(x, lo, hi, from, to);
        } else {
            lemma_end_is_met(x, lo, hi, from, to);
        }
    } else {
        lemma_meeting_across_is_met(x, lo, hi, from, to);
    }
}

/// A point in which a segment is found to meet a stretch of a horizontal
/// line lies on that stretch and on the segment: its mirror image does so in
/// the mirrored plane.
pub proof fn lemma_horizontal_meeting_is_met(y: int, lo: int, hi: int, from: Point, to: Point)
    ensures
        horizontal_meeting(y, lo, hi, from, to) matches Some(point) ==> meets_stretch(
            y,
            lo,
            hi,
            from.transposed(),
            to.transposed(),
            point.transposed(),
        ),
{
    let turned_from = from.transposed();
    let turned_to = to.transposed();
    if lo > hi || passes_by(y, lo, hi, turned_from, turned_to) {
    } else if x_dominant(from, to) {
        if from.x != to.x {
            lemma_meeting_across_is_met(y, lo, hi, turned_from, turned_to);
        } else {
            lemma_end_is_met(y, lo, hi, turned_from, turned_to);
        }
    } else {
        lemma_meeting_along_is_met(y, lo, hi, turned_from, turned_to);
    }
}

/// A segment that has a point on a stretch of a vertical line is found to
/// meet the stretch. With the law that what is found is met, a segment gets
/// a point exactly when it has one on the stretch.
pub proof fn lemma_vertical_meeting_is_found(
    x: int,
    lo: int,
    hi: int,
    from: Point,
    to: Point,
    point: ExactPoint,
)
    requires
        meets_stretch(x, lo, hi, from, to, point),
    ensures
        vertical_meeting(x, lo, hi, from, to) is Some,
{
    lemma_stretch_is_not_passed_by(x, lo, hi, from, to, point);
    if x_dominant(from, to) {
        if from.x != to.x {
            lemma_along_finds(x, lo, hi, from, to, point);
        }
    } else {
        lemma_across_finds(x, lo, hi, from, to, point);
    }
}

/// A segment that has a point on a stretch of a horizontal line is found to
/// meet the stretch; the point is given by its mirror image in the mirrored
/// plane.
pub proof fn lemma_horizontal_meeting_is_found(
    y: int,
    lo: int,
    hi: int,
    from: Point,
    to: Point,
    point: ExactPoint,
)
    requires
        meets_stretch(y, lo, hi, from.transposed(), to.transposed(), point.transposed()),
    ensures
        horizontal_meeting(y, lo, hi, from, to) is Some,
{
    let turned_from = from.transposed();
    let turned_to = to.transposed();
    let turned = point.transposed();
    lemma_stretch_is_not_passed_by(y, lo, hi, turned_from, turned_to, turned);
    if x_dominant(from, to) {
        if from.x != to.x {
            lemma_across_finds(y, lo, hi, turned_from, turned_to, turned);
        }
    } else {
        lemma_along_finds(y, lo, hi, turned_from, turned_to, turned);
    }
}

/// A segment is `FullyOutside` exactly when none of its points lies in the
/// rectangle.
pub proof fn lemma_fully_outside_exactly_when_no_point_is_inside(
    rect: RectangularDrawnRegion,
    from: Point,
    to: Point,
)
    ensures
        rect.clip(from, to) == Clipping::FullyOutside <==> forall|point: ExactPoint|
            point.well_formed() && #[trigger] on_segment(from, to, point) ==> !rect.holds(point),
{
    lemma_classification_is_complete(rect, from, to);
    lemma_ends_are_on_segment(from, to);
    match rect.clip(from, to) {
        Clipping::FullyOutside => {
            assert forall|point: ExactPoint|
                point.well_formed() && #[trigger] on_segment(from, to, point) implies !rect.holds(
                point,
            ) by {
                lemma_fully_outside_has_no_point_inside(rect, from, to, point);
            }
        },
        Clipping::FullyInside => {
            lemma_inside_is_held(rect, from);
            assert(on_segment(from, to, exact(from)) && rect.holds(exact(from)));
        },
        Clipping::Exits { point } => {
            lemma_inside_is_held(rect, from);
            assert(on_segment(from, to, exact(from)) && rect.holds(exact(from)));
        },
        Clipping::Enters { point } => {
            lemma_inside_is_held(rect, to);
            assert(on_segment(from, to, exact(to)) && rect.holds(exact(to)));
        },
        Clipping::Crosses { entrance, exit } => {
            assert(on_segment(from, to, entrance) && rect.holds(entrance));
        },
    }
}

} // verus!
