//! The proofs behind the laws of clipping.

use vstd::prelude::*;
use crate::arithmetic::{
    greater, lemma_cancel_equal, lemma_cancel_order, lemma_cancel_positive, lemma_equal_times,
    lemma_group_four, lemma_group_three, lemma_negated_times, lemma_not_above, lemma_not_below,
    lemma_opposite_products, lemma_partial_gain, lemma_product_sign, lemma_regroup,
    lemma_scale_keeps_order, lemma_scale_strictly, lemma_sum_times, lemma_swap_factors,
    lemma_times_difference, lemma_times_equal, lemma_times_one, lesser,
};
use crate::clip::x_dominant;
use crate::edge::{meeting_across, meeting_along, passes_by};
use crate::fraction::Ratio;
use crate::geometry::{
    displacement, exact, meets_stretch, not_before, on_line, on_part, on_segment, part_inside,
};
use crate::intersection::{Clipping, ExactPoint};
use crate::laws::{lemma_line_is_undirected, lemma_on_segment_is_undirected};
use crate::line::{abscissa_at, ahead, extent, ordinate_at};
use crate::point::Point;
use crate::rectangle::RectangularDrawnRegion;

verus! {

/// A segment with both ends at one height meets every vertical line at that
/// height.
pub(crate) proof fn lemma_level_line(from: Point, to: Point, x: int)
    requires
        from.y == to.y,
    ensures
        ordinate_at(from, to, x).num == from.y * ordinate_at(from, to, x).den,
{
    let dy = to.y - from.y;
    assert(dy * (x - from.x) == 0) by (nonlinear_arith)
        requires
            dy == 0,
    ;
}

/// The line through two points meets a vertical line at the same height in
/// whichever direction it is travelled.
pub(crate) proof fn lemma_ordinate_is_undirected(from: Point, to: Point, x: int)
    ensures
        ordinate_at(to, from, x) == ordinate_at(from, to, x),
{
    let height = to.y - from.y;
    let width = extent(from, to);
    let gone = ahead(from, to, x);
    assert(to.y * width + (-height) * (width - gone) == from.y * width + height * gone)
        by (nonlinear_arith)
        requires
            height == to.y - from.y,
    ;
}

/// Where a segment leaves a rectangle from one of its points, it does so
/// on a side of the rectangle, in a point of the segment.
pub(crate) proof fn lemma_leaving_point(rect: RectangularDrawnRegion, inside: Point, outside: Point)
    requires
        rect.is_within_bounds(inside),
        !rect.is_within_bounds(outside),
        x_dominant(inside, outside),
    ensures
        rect.leaving_point(inside, outside).well_formed(),
        rect.on_boundary(rect.leaving_point(inside, outside)),
        on_segment(inside, outside, rect.leaving_point(inside, outside)),
{
    let side = if outside.x > inside.x {
        rect.right
    } else {
        rect.left
    };
    let width = extent(inside, outside);
    let height = outside.y - inside.y;
    let gone = ahead(inside, outside, side as int);
    let at_side = ordinate_at(inside, outside, side as int);
    let point = rect.leaving_point(inside, outside);
    assert(width > 0);
    assert(gone >= 0);
    assert(at_side.num == inside.y * width + height * gone);
    assert((inside.y + height) * width == inside.y * width + height * width)
        by (nonlinear_arith);
    if at_side.within(rect.bottom as int, rect.top as int) {
        // The side ahead is reached before the segment ends.
        if gone > width {
            if outside.y > rect.top {
                assert(height * gone >= height * width) by (nonlinear_arith)
                    requires
                        height > 0,
                        gone > width,
                ;
                lemma_scale_strictly(rect.top as int, outside.y as int, width);
            } else {
                assert(height * gone <= height * width) by (nonlinear_arith)
                    requires
                        height < 0,
                        gone > width,
                ;
                lemma_scale_strictly(outside.y as int, rect.bottom as int, width);
            }
            assert(false);
        }
        lemma_partial_gain(height, gone, width);
        assert(on_line(inside, outside, point)) by (nonlinear_arith)
            requires
                point.x.num == side,
                point.x.den == 1,
                point.y.num == inside.y * width + height * gone,
                point.y.den == width,
                outside.x > inside.x ==> width == outside.x - inside.x && gone == side
                    - inside.x,
                outside.x <= inside.x ==> width == inside.x - outside.x && gone == inside.x
                    - side,
                height == outside.y - inside.y,
        ;
    } else {
        // The line passes the corner ahead; it leaves through the bottom or
        // the top before it reaches the side.
        let level = if outside.y > inside.y {
            rect.top
        } else {
            rect.bottom
        };
        let turned_in = inside.transposed();
        let turned_out = outside.transposed();
        let rise = extent(turned_in, turned_out);
        let risen = ahead(turned_in, turned_out, level as int);
        lemma_scale_keeps_order(rect.bottom as int, inside.y as int, width);
        lemma_scale_keeps_order(inside.y as int, rect.top as int, width);
        assert(height != 0 && (height > 0 <==> at_side.num > rect.top * width)) by (nonlinear_arith)
            requires
                at_side.num == inside.y * width + height * gone,
                at_side.num > rect.top * width || at_side.num < rect.bottom * width,
                rect.bottom * width <= inside.y * width <= rect.top * width,
                gone >= 0,
        ;
        assert(rise > 0);
        assert(risen >= 0);
        assert(rise * gone > risen * width) by (nonlinear_arith)
            requires
                at_side.num == inside.y * width + height * gone,
                height > 0 ==> at_side.num > rect.top * width && rise == height && risen
                    == rect.top - inside.y,
                height < 0 ==> at_side.num < rect.bottom * width && rise == -height && risen
                    == inside.y - rect.bottom,
                height != 0,
        ;
        if risen > rise {
            assert(width > gone);
            assert(risen * width > rise * gone) by (nonlinear_arith)
                requires
                    risen > rise,
                    rise > 0,
                    width > gone,
                    gone >= 0,
            ;
            assert(false);
        }
        let across = outside.x - inside.x;
        assert(point.x.num == inside.x * rise + across * risen);
        assert(point.x.den == rise);
        if across > 0 {
            assert(0 <= across * risen <= gone * rise && across * risen <= across * rise && (
            inside.x - rect.left) * rise >= 0) by (nonlinear_arith)
                requires
                    across == width,
                    across > 0,
                    rise * gone > risen * width,
                    0 <= risen <= rise,
                    inside.x >= rect.left,
            ;
        } else {
            assert(0 >= across * risen >= -(gone * rise) && across * risen >= across * rise && (
            rect.right - inside.x) * rise >= 0) by (nonlinear_arith)
                requires
                    across == -width,
                    across < 0,
                    rise * gone > risen * width,
                    0 <= risen <= rise,
                    inside.x <= rect.right,
            ;
        }
        assert((inside.x + across) * rise == inside.x * rise + across * rise && (inside.x + gone)
            * rise == inside.x * rise + gone * rise && (inside.x - gone) * rise == inside.x * rise
            - gone * rise && (inside.x - rect.left) * rise == inside.x * rise - rect.left * rise
            && (rect.right - inside.x) * rise == rect.right * rise - inside.x * rise)
            by (nonlinear_arith);
        assert(on_line(inside, outside, point)) by (nonlinear_arith)
            requires
                point.x.num == inside.x * rise + across * risen,
                point.x.den == rise,
                point.y.num == level,
                point.y.den == 1,
                across == outside.x - inside.x,
                height == outside.y - inside.y,
                height > 0 ==> rise == height && risen == level - inside.y,
                height < 0 ==> rise == -height && risen == inside.y - level,
                height != 0,
        ;
    }
}

/// Where the line through a segment that passes through a proper rectangle
/// meets the rectangle next to one of its vertical sides, it does so on a
/// side of the rectangle, in a point of the segment.
pub(crate) proof fn lemma_chord_end(rect: RectangularDrawnRegion, from: Point, to: Point, side: int)
    requires
        rect.is_proper(),
        !rect.is_within_bounds(from),
        !rect.is_within_bounds(to),
        x_dominant(from, to),
        !rect.misses_bounds(from, to),
        !rect.line_misses(from, to),
        side == rect.left || side == rect.right,
    ensures
        rect.chord_end(from, to, side).well_formed(),
        rect.on_boundary(rect.chord_end(from, to, side)),
        on_segment(from, to, rect.chord_end(from, to, side)),
{
    let other = if side == rect.left {
        rect.right as int
    } else {
        rect.left as int
    };
    let width = extent(from, to);
    let height = to.y - from.y;
    let gone = ahead(from, to, side);
    let other_gone = ahead(from, to, other);
    let at_side = ordinate_at(from, to, side);
    let at_other = ordinate_at(from, to, other);
    let point = rect.chord_end(from, to, side);
    assert(width > 0);
    assert(at_side.num == from.y * width + height * gone);
    assert(at_other.num == from.y * width + height * other_gone);
    assert((from.y + height) * width == from.y * width + height * width && height * (gone
        - width) == height * gone - height * width) by (nonlinear_arith);
    lemma_product_sign(height, gone);
    lemma_product_sign(height, gone - width);
    if at_side.within(rect.bottom as int, rect.top as int) {
        if gone < 0 {
            assert(rect.left <= from.x <= rect.right);
            if from.y > rect.top {
                lemma_scale_strictly(rect.top as int, from.y as int, width);
            } else {
                lemma_scale_strictly(from.y as int, rect.bottom as int, width);
            }
            assert(false);
        }
        if gone > width {
            assert(rect.left <= to.x <= rect.right);
            if to.y > rect.top {
                lemma_scale_strictly(rect.top as int, to.y as int, width);
            } else {
                lemma_scale_strictly(to.y as int, rect.bottom as int, width);
            }
            assert(false);
        }
        lemma_partial_gain(height, gone, width);
        assert(on_line(from, to, point)) by (nonlinear_arith)
            requires
                point.x.num == side,
                point.x.den == 1,
                point.y.num == from.y * width + height * gone,
                point.y.den == width,
                to.x > from.x ==> width == to.x - from.x && gone == side - from.x,
                to.x <= from.x ==> width == from.x - to.x && gone == from.x - side,
                height == to.y - from.y,
        ;
        let first = lesser(from.x as int, to.x as int);
        let last = greater(from.x as int, to.x as int);
        assert(first <= side <= last);
        assert(first * point.x.den == first && last * point.x.den == last) by (nonlinear_arith)
            requires
                point.x.den == 1,
        ;
    } else {
        let below = !at_side.at_least(rect.bottom as int);
        let level = if below {
            rect.bottom as int
        } else {
            rect.top as int
        };
        let other_level = if below {
            rect.top as int
        } else {
            rect.bottom as int
        };
        let turned_from = from.transposed();
        let turned_to = to.transposed();
        let rise = extent(turned_from, turned_to);
        let risen = ahead(turned_from, turned_to, level);
        let other_risen = ahead(turned_from, turned_to, other_level);
        lemma_product_sign(height, other_gone);
        assert(height != 0);
        assert(rise > 0);
        assert((gone * rise < risen * width && risen * width <= other_gone * rise) || (gone * rise
            > risen * width && risen * width >= other_gone * rise)) by (nonlinear_arith)
            requires
                at_side.num == from.y * width + height * gone,
                at_other.num == from.y * width + height * other_gone,
                (at_side.num < level * width && level * width <= at_other.num) || (at_side.num
                    > level * width && level * width >= at_other.num),
                height > 0 ==> rise == height && risen == level - from.y,
                height < 0 ==> rise == -height && risen == from.y - level,
                height != 0,
        ;
        lemma_level_is_reached(width, rise, gone, other_gone, risen, other_risen);
        let across = to.x - from.x;
        assert(point.x.num == from.x * rise + across * risen);
        assert(point.x.den == rise);
        let nearer = lesser(gone, other_gone);
        let farther = greater(gone, other_gone);
        assert(nearer * rise <= risen * width <= farther * rise) by {
            if gone <= other_gone {
                lemma_scale_keeps_order(gone, other_gone, rise);
                assert(gone * rise <= risen * width <= other_gone * rise);
            } else {
                lemma_scale_keeps_order(other_gone, gone, rise);
                assert(other_gone * rise <= risen * width <= gone * rise);
            }
        }
        if across > 0 {
            assert(rect.left * rise <= from.x * rise + across * risen <= rect.right * rise
                && from.x * rise <= from.x * rise + across * risen <= to.x * rise)
                by (nonlinear_arith)
                requires
                    across == width,
                    across == to.x - from.x,
                    nearer == rect.left - from.x,
                    farther == rect.right - from.x,
                    nearer * rise <= risen * width <= farther * rise,
                    0 <= risen <= rise,
                    width > 0,
            ;
        } else {
            assert(rect.left * rise <= from.x * rise + across * risen <= rect.right * rise
                && to.x * rise <= from.x * rise + across * risen <= from.x * rise)
                by (nonlinear_arith)
                requires
                    across == -width,
                    across == to.x - from.x,
                    nearer == from.x - rect.right,
                    farther == from.x - rect.left,
                    nearer * rise <= risen * width <= farther * rise,
                    0 <= risen <= rise,
                    width > 0,
            ;
        }
        assert(on_line(from, to, point)) by (nonlinear_arith)
            requires
                point.x.num == from.x * rise + across * risen,
                point.x.den == rise,
                point.y.num == level,
                point.y.den == 1,
                across == to.x - from.x,
                height == to.y - from.y,
                height > 0 ==> rise == height && risen == level - from.y,
                height < 0 ==> rise == -height && risen == from.y - level,
                height != 0,
        ;
    }
}

/// The outcome for a segment that extends at least as far horizontally as
/// vertically fits where its ends lie.
pub(crate) proof fn lemma_classification_along_x(rect: RectangularDrawnRegion, from: Point, to: Point)
    requires
        rect.is_proper(),
        x_dominant(from, to),
        !(rect.is_within_bounds(from) && rect.is_within_bounds(to)),
    ensures
        rect.fits(from, to, rect.clip_along_x(from, to)),
{
    if rect.is_within_bounds(from) {
        lemma_leaving_point(rect, from, to);
    } else if rect.is_within_bounds(to) {
        lemma_leaving_point(rect, to, from);
        lemma_on_segment_is_undirected(from, to, rect.leaving_point(to, from));
    } else if rect.misses_bounds(from, to) || rect.line_misses(from, to) {
    } else {
        lemma_chord_end(rect, from, to, rect.left as int);
        lemma_chord_end(rect, from, to, rect.right as int);
    }
}

/// For a point of the line through `from` and `to`, the height of the line
/// at the position of the point is the height of the point. Here `gone` is
/// how far the point lies ahead of `from`, times the denominator of its
/// horizontal coordinate.
pub(crate) proof fn lemma_height_on_line(from: Point, to: Point, point: ExactPoint, gone: int)
    requires
        from.x != to.x,
        on_line(from, to, point),
        to.x > from.x ==> gone == point.x.num - from.x * point.x.den,
        to.x < from.x ==> gone == -(point.x.num - from.x * point.x.den),
    ensures
        (extent(from, to) * point.x.den) * point.y.num == ((from.y * extent(from, to))
            * point.x.den + (to.y - from.y) * gone) * point.y.den,
{
    let width = extent(from, to);
    let height = to.y - from.y;
    let across = to.x - from.x;
    let xd = point.x.den;
    let yd = point.y.den;
    let px = point.x.num - from.x * xd;
    let py = point.y.num - from.y * yd;
    assert((across * py) * xd == (height * px) * yd);
    if to.x > from.x {
        lemma_same_factors(across, width, px, gone, py, xd, yd, height);
    } else {
        lemma_opposite_factors(across, width, px, gone, py, xd, yd, height);
    }
    assert((width * py) * xd == (height * gone) * yd);
    lemma_height_from_slope(width, py, xd, yd, point.y.num, from.y as int);
    lemma_sum_times((from.y * width) * xd, height * gone, yd);
}

/// Where the line through a segment passes below or above a rectangle, no
/// point of the line lies in the rectangle.
pub(crate) proof fn lemma_line_misses(
    rect: RectangularDrawnRegion,
    from: Point,
    to: Point,
    point: ExactPoint,
)
    requires
        from.x != to.x,
        rect.line_misses(from, to),
        point.well_formed(),
        on_line(from, to, point),
    ensures
        !rect.holds(point),
{
    let width = extent(from, to);
    let height = to.y - from.y;
    let xd = point.x.den;
    let yd = point.y.den;
    let at_left = ordinate_at(from, to, rect.left as int);
    let at_right = ordinate_at(from, to, rect.right as int);
    let gone_left = ahead(from, to, rect.left as int);
    let gone_right = ahead(from, to, rect.right as int);
    let gone = if to.x > from.x {
        point.x.num - from.x * xd
    } else {
        -(point.x.num - from.x * xd)
    };
    if rect.holds(point) {
        let base = from.y * width;
        let on_line_value = base * xd + height * gone;
        lemma_height_on_line(from, to, point, gone);
        assert((width * xd) * point.y.num == on_line_value * yd);
        lemma_product_sign(width, xd);
        assert(at_left.num == base + height * gone_left);
        assert(at_right.num == base + height * gone_right);
        if to.x > from.x {
            assert(gone_left * xd <= gone <= gone_right * xd) by (nonlinear_arith)
                requires
                    gone_left == rect.left - from.x,
                    gone_right == rect.right - from.x,
                    gone == point.x.num - from.x * xd,
                    rect.left * xd <= point.x.num <= rect.right * xd,
            ;
            lemma_line_stays_between(base, height, gone_left, gone_right, gone, xd);
        } else {
            assert(gone_right * xd <= gone <= gone_left * xd) by (nonlinear_arith)
                requires
                    gone_left == from.x - rect.left,
                    gone_right == from.x - rect.right,
                    gone == -(point.x.num - from.x * xd),
                    rect.left * xd <= point.x.num <= rect.right * xd,
            ;
            lemma_line_stays_between(base, height, gone_right, gone_left, gone, xd);
        }
        if !at_left.at_least(rect.bottom as int) && !at_right.at_least(rect.bottom as int) {
            let limit = rect.bottom * width;
            lemma_scale_strictly(at_left.num, limit, xd);
            lemma_scale_strictly(at_right.num, limit, xd);
            assert(on_line_value < limit * xd);
            lemma_scale_strictly(on_line_value, limit * xd, yd);
            assert((limit * xd) * yd == (width * xd) * (rect.bottom * yd)) by (nonlinear_arith)
                requires
                    limit == rect.bottom * width,
            ;
            lemma_cancel_positive(width * xd, point.y.num, rect.bottom * yd);
        } else {
            let limit = rect.top * width;
            lemma_scale_strictly(limit, at_left.num, xd);
            lemma_scale_strictly(limit, at_right.num, xd);
            assert(on_line_value > limit * xd);
            lemma_scale_strictly(limit * xd, on_line_value, yd);
            assert((limit * xd) * yd == (width * xd) * (rect.top * yd)) by (nonlinear_arith)
                requires
                    limit == rect.top * width,
            ;
            lemma_cancel_positive(width * xd, rect.top * yd, point.y.num);
        }
    }
}

/// No point between two ends that lie strictly beyond one and the same
/// bound of a rectangle lies in the rectangle.
pub(crate) proof fn lemma_bounds_missed(
    rect: RectangularDrawnRegion,
    from: Point,
    to: Point,
    point: ExactPoint,
)
    requires
        rect.misses_bounds(from, to),
        point.well_formed(),
        on_segment(from, to, point),
    ensures
        !rect.holds(point),
{
    let xd = point.x.den;
    let yd = point.y.den;
    if from.x < rect.left && to.x < rect.left {
        lemma_scale_strictly(greater(from.x as int, to.x as int), rect.left as int, xd);
    } else if from.y < rect.bottom && to.y < rect.bottom {
        lemma_scale_strictly(greater(from.y as int, to.y as int), rect.bottom as int, yd);
    } else if from.x > rect.right && to.x > rect.right {
        lemma_scale_strictly(rect.right as int, lesser(from.x as int, to.x as int), xd);
    } else {
        lemma_scale_strictly(rect.top as int, lesser(from.y as int, to.y as int), yd);
    }
}

/// No point of a segment that extends at least as far horizontally as
/// vertically and is `FullyOutside` lies in the rectangle.
pub(crate) proof fn lemma_fully_outside_along_x(
    rect: RectangularDrawnRegion,
    from: Point,
    to: Point,
    point: ExactPoint,
)
    requires
        x_dominant(from, to),
        !(rect.is_within_bounds(from) && rect.is_within_bounds(to)),
        rect.clip_along_x(from, to) == Clipping::FullyOutside,
        point.well_formed(),
        on_segment(from, to, point),
    ensures
        !rect.holds(point),
{
    if rect.misses_bounds(from, to) {
        lemma_bounds_missed(rect, from, to, point);
    } else {
        lemma_line_misses(rect, from, to, point);
    }
}

/// Two points of one line are displaced from each other in the direction of
/// the line.
pub(crate) proof fn lemma_same_line(from: Point, to: Point, first: ExactPoint, second: ExactPoint)
    requires
        on_line(from, to, first),
        on_line(from, to, second),
    ensures
        ((to.x - from.x) * displacement(first, second).1) * (first.x.den * second.x.den) == ((to.y
            - from.y) * displacement(first, second).0) * (first.y.den * second.y.den),
{
    let across = to.x - from.x;
    let height = to.y - from.y;
    let px = first.x.num - from.x * first.x.den;
    let py = first.y.num - from.y * first.y.den;
    let qx = second.x.num - from.x * second.x.den;
    let qy = second.y.num - from.y * second.y.den;
    let (xd, yd) = (first.x.den, first.y.den);
    let (wd, zd) = (second.x.den, second.y.den);
    let along = displacement(first, second).0;
    let aside = displacement(first, second).1;
    assert((across * py) * xd == (height * px) * yd);
    assert((across * qy) * wd == (height * qx) * zd);
    lemma_equal_times((across * qy) * wd, (height * qx) * zd, yd * xd);
    lemma_equal_times((across * py) * xd, (height * px) * yd, zd * wd);
    lemma_displaced(from.x as int, first.x.num, xd, px, second.x.num, wd, qx, along);
    lemma_displaced(from.y as int, first.y.num, yd, py, second.y.num, zd, qy, aside);
    lemma_spread(across, qy, yd, py, zd, xd, wd, aside);
    lemma_spread(height, qx, xd, px, wd, yd, zd, along);
}

/// For two points of the line through `from` and `to`: if the second does
/// not lie back in one coordinate in which the line extends, it does not
/// come before the first.
pub(crate) proof fn lemma_order_along_line(from: Point, to: Point, first: ExactPoint, second: ExactPoint)
    requires
        first.well_formed(),
        second.well_formed(),
        on_line(from, to, first),
        on_line(from, to, second),
        (to.x != from.x && displacement(first, second).0 * (to.x - from.x) >= 0) || (to.y
            != from.y && displacement(first, second).1 * (to.y - from.y) >= 0),
    ensures
        not_before(from, to, first, second),
{
    let across = to.x - from.x;
    let height = to.y - from.y;
    let along = displacement(first, second).0;
    let aside = displacement(first, second).1;
    lemma_same_line(from, to, first, second);
    lemma_product_sign(first.x.den, second.x.den);
    lemma_product_sign(first.y.den, second.y.den);
    if to.x != from.x && along * across >= 0 {
        lemma_order_carries_over(
            across,
            height,
            along,
            aside,
            first.x.den * second.x.den,
            first.y.den * second.y.den,
        );
    } else {
        lemma_order_carries_over(
            height,
            across,
            aside,
            along,
            first.y.den * second.y.den,
            first.x.den * second.x.den,
        );
    }
}

/// No point of the segment that lies in the rectangle comes after the point
/// in which the segment leaves the rectangle.
pub(crate) proof fn lemma_leaving_point_is_last(
    rect: RectangularDrawnRegion,
    inside: Point,
    outside: Point,
    point: ExactPoint,
)
    requires
        rect.is_within_bounds(inside),
        !rect.is_within_bounds(outside),
        x_dominant(inside, outside),
        point.well_formed(),
        on_segment(inside, outside, point),
        rect.holds(point),
    ensures
        not_before(inside, outside, point, rect.leaving_point(inside, outside)),
{
    let leaving = rect.leaving_point(inside, outside);
    let across = outside.x - inside.x;
    let height = outside.y - inside.y;
    let side = if outside.x > inside.x {
        rect.right
    } else {
        rect.left
    };
    let at_side = ordinate_at(inside, outside, side as int);
    lemma_leaving_point(rect, inside, outside);
    if at_side.within(rect.bottom as int, rect.top as int) {
        let along = displacement(point, leaving).0;
        lemma_times_one(point.x.num, leaving.x.den);
        assert(along == side * point.x.den - point.x.num);
        lemma_product_sign(along, across);
        lemma_order_along_line(inside, outside, point, leaving);
    } else {
        let level = if outside.y > inside.y {
            rect.top
        } else {
            rect.bottom
        };
        let aside = displacement(point, leaving).1;
        lemma_times_one(point.y.num, leaving.y.den);
        assert(aside == level * point.y.den - point.y.num);
        assert(height != 0);
        lemma_product_sign(aside, height);
        lemma_order_along_line(inside, outside, point, leaving);
    }
}

/// Of a segment that passes through a proper rectangle: no point of the
/// segment that lies in the rectangle comes before the end of the chord at
/// the vertical side that the segment reaches first, nor after the end at
/// the side that it reaches last.
pub(crate) proof fn lemma_chord_end_order(
    rect: RectangularDrawnRegion,
    from: Point,
    to: Point,
    side: int,
    point: ExactPoint,
)
    requires
        rect.is_proper(),
        !rect.is_within_bounds(from),
        !rect.is_within_bounds(to),
        x_dominant(from, to),
        !rect.misses_bounds(from, to),
        !rect.line_misses(from, to),
        side == rect.left || side == rect.right,
        point.well_formed(),
        on_segment(from, to, point),
        rect.holds(point),
    ensures
        side == (if to.x > from.x {
            rect.left
        } else {
            rect.right
        }) ==> not_before(from, to, rect.chord_end(from, to, side), point),
        side == (if to.x > from.x {
            rect.right
        } else {
            rect.left
        }) ==> not_before(from, to, point, rect.chord_end(from, to, side)),
{
    let end = rect.chord_end(from, to, side);
    let other = if side == rect.left {
        rect.right as int
    } else {
        rect.left as int
    };
    let across = to.x - from.x;
    let height = to.y - from.y;
    let width = extent(from, to);
    let gone = ahead(from, to, side);
    let other_gone = ahead(from, to, other);
    let at_side = ordinate_at(from, to, side);
    let at_other = ordinate_at(from, to, other);
    let is_first = side == (if to.x > from.x {
        rect.left
    } else {
        rect.right
    });
    let is_last = side == (if to.x > from.x {
        rect.right
    } else {
        rect.left
    });
    lemma_chord_end(rect, from, to, side);
    assert(across != 0);
    assert(at_side.num == from.y * width + height * gone);
    assert(at_other.num == from.y * width + height * other_gone);
    lemma_times_difference(height, other_gone, gone);
    lemma_product_sign(height, other_gone - gone);
    if at_side.within(rect.bottom as int, rect.top as int) {
        lemma_times_one(point.x.num, end.x.den);
        if is_first {
            let along = displacement(end, point).0;
            assert(along == point.x.num - side * point.x.den);
            lemma_product_sign(along, across);
            lemma_order_along_line(from, to, end, point);
        }
        if is_last {
            let along = displacement(point, end).0;
            assert(along == side * point.x.den - point.x.num);
            lemma_product_sign(along, across);
            lemma_order_along_line(from, to, point, end);
        }
    } else {
        let level = if !at_side.at_least(rect.bottom as int) {
            rect.bottom as int
        } else {
            rect.top as int
        };
        assert(height != 0);
        lemma_times_one(point.y.num, end.y.den);
        if is_first {
            let aside = displacement(end, point).1;
            assert(aside == point.y.num - level * point.y.den);
            assert(gone <= other_gone);
            lemma_product_sign(aside, height);
            lemma_order_along_line(from, to, end, point);
        }
        if is_last {
            let aside = displacement(point, end).1;
            assert(aside == level * point.y.den - point.y.num);
            assert(gone >= other_gone);
            lemma_product_sign(aside, height);
            lemma_order_along_line(from, to, point, end);
        }
    }
}

/// The two ends of a segment are points of it.
pub(crate) proof fn lemma_ends_are_on_segment(from: Point, to: Point)
    ensures
        exact(from).well_formed(),
        exact(to).well_formed(),
        on_segment(from, to, exact(from)),
        on_segment(from, to, exact(to)),
{
    let across = to.x - from.x;
    let height = to.y - from.y;
    let one = exact(from).x.den;
    lemma_times_one(from.x as int, one);
    lemma_times_one(from.y as int, one);
    lemma_times_one(lesser(from.x as int, to.x as int), one);
    lemma_times_one(greater(from.x as int, to.x as int), one);
    lemma_times_one(lesser(from.y as int, to.y as int), one);
    lemma_times_one(greater(from.y as int, to.y as int), one);
    lemma_product_sign(across, 0);
    lemma_product_sign(height, 0);
    lemma_times_one(across * 0, one);
    lemma_times_one(height * 0, one);
    lemma_times_one(across * height, one);
    lemma_times_one(height * across, one);
    assert(across * height == height * across) by (nonlinear_arith);
}

/// A grid point inside a rectangle is a point that the rectangle holds.
pub(crate) proof fn lemma_inside_is_held(rect: RectangularDrawnRegion, point: Point)
    requires
        rect.is_within_bounds(point),
    ensures
        rect.holds(exact(point)),
{
    let one = exact(point).x.den;
    lemma_times_one(rect.left as int, one);
    lemma_times_one(rect.right as int, one);
    lemma_times_one(rect.bottom as int, one);
    lemma_times_one(rect.top as int, one);
}

/// Every point of a segment lies between its two ends.
pub(crate) proof fn lemma_between_the_ends(from: Point, to: Point, point: ExactPoint)
    requires
        point.well_formed(),
        on_segment(from, to, point),
    ensures
        not_before(from, to, exact(from), point),
        not_before(from, to, point, exact(to)),
{
    let across = to.x - from.x;
    let height = to.y - from.y;
    lemma_times_one(point.x.num, exact(from).x.den);
    lemma_times_one(point.y.num, exact(from).y.den);
    lemma_times_one(point.x.num, exact(to).x.den);
    lemma_times_one(point.y.num, exact(to).y.den);
    assert(displacement(exact(from), point).0 == point.x.num - from.x * point.x.den);
    assert(displacement(exact(from), point).1 == point.y.num - from.y * point.y.den);
    assert(displacement(point, exact(to)).0 == to.x * point.x.den - point.x.num);
    assert(displacement(point, exact(to)).1 == to.y * point.y.den - point.y.num);
    lemma_product_sign(displacement(exact(from), point).0, across);
    lemma_product_sign(displacement(exact(from), point).1, height);
    lemma_product_sign(displacement(point, exact(to)).0, across);
    lemma_product_sign(displacement(point, exact(to)).1, height);
}

/// A coordinate that lies between two others, both within a range, is
/// within that range. The three coordinates are fractions, and `direction`
/// tells in which sense the middle one lies between: for a positive
/// direction, not below the first and not above the last.
pub(crate) proof fn lemma_between_two_within(
    lo: int,
    hi: int,
    first: Ratio,
    middle: Ratio,
    last: Ratio,
    direction: int,
)
    requires
        first.den > 0,
        middle.den > 0,
        last.den > 0,
        first.within(lo, hi),
        last.within(lo, hi),
        direction != 0,
        (middle.num * first.den - first.num * middle.den) * direction >= 0,
        (last.num * middle.den - middle.num * last.den) * direction >= 0,
    ensures
        middle.within(lo, hi),
{
    lemma_product_sign(middle.num * first.den - first.num * middle.den, direction);
    lemma_product_sign(last.num * middle.den - middle.num * last.den, direction);
    if direction > 0 {
        lemma_not_below(lo, first.num, first.den, middle.num, middle.den);
        lemma_not_above(hi, last.num, last.den, middle.num, middle.den);
    } else {
        lemma_not_below(lo, last.num, last.den, middle.num, middle.den);
        lemma_not_above(hi, first.num, first.den, middle.num, middle.den);
    }
}

/// Two fractions with the value `at` are within the same ranges.
pub(crate) proof fn lemma_upright_is_held(lo: int, hi: int, at: int, first: Ratio, middle: Ratio)
    requires
        first.den > 0,
        middle.den > 0,
        first.within(at, at),
        middle.within(at, at),
        first.within(lo, hi),
    ensures
        middle.within(lo, hi),
{
    if lo > at {
        lemma_scale_strictly(at, lo, first.den);
    }
    if hi < at {
        lemma_scale_strictly(hi, at, first.den);
    }
    lemma_scale_keeps_order(lo, at, middle.den);
    lemma_scale_keeps_order(at, hi, middle.den);
}

/// A rectangle is convex: between two of its points that lie on a segment,
/// every point of the segment lies in the rectangle.
pub(crate) proof fn lemma_rectangle_is_convex(
    rect: RectangularDrawnRegion,
    from: Point,
    to: Point,
    first: ExactPoint,
    middle: ExactPoint,
    last: ExactPoint,
)
    requires
        first.well_formed(),
        middle.well_formed(),
        last.well_formed(),
        on_segment(from, to, first),
        on_segment(from, to, middle),
        rect.holds(first),
        rect.holds(last),
        not_before(from, to, first, middle),
        not_before(from, to, middle, last),
    ensures
        rect.holds(middle),
{
    if to.x != from.x {
        lemma_between_two_within(
            rect.left as int,
            rect.right as int,
            first.x,
            middle.x,
            last.x,
            to.x - from.x,
        );
    } else {
        lemma_upright_is_held(rect.left as int, rect.right as int, from.x as int, first.x, middle.x);
    }
    if to.y != from.y {
        lemma_between_two_within(
            rect.bottom as int,
            rect.top as int,
            first.y,
            middle.y,
            last.y,
            to.y - from.y,
        );
    } else {
        lemma_upright_is_held(rect.bottom as int, rect.top as int, from.y as int, first.y, middle.y);
    }
}

/// What comes not before on the way there comes not after on the way back.
pub(crate) proof fn lemma_order_is_reversed(from: Point, to: Point, earlier: ExactPoint, later: ExactPoint)
    ensures
        not_before(to, from, later, earlier) == not_before(from, to, earlier, later),
{
    lemma_opposite_products(
        displacement(earlier, later).0,
        to.x - from.x,
        displacement(later, earlier).0,
        from.x - to.x,
    );
    lemma_opposite_products(
        displacement(earlier, later).1,
        to.y - from.y,
        displacement(later, earlier).1,
        from.y - to.y,
    );
}

/// The outcome for a segment that extends at least as far horizontally as
/// vertically tells which of its points lie in the rectangle.
pub(crate) proof fn lemma_part_inside_along_x(
    rect: RectangularDrawnRegion,
    from: Point,
    to: Point,
    point: ExactPoint,
)
    requires
        x_dominant(from, to),
        !(rect.is_within_bounds(from) && rect.is_within_bounds(to)),
        point.well_formed(),
        on_segment(from, to, point),
        rect.is_proper(),
    ensures
        rect.holds(point) == on_part(
            from,
            to,
            part_inside(from, to, rect.clip_along_x(from, to)),
            point,
        ),
{
    lemma_ends_are_on_segment(from, to);
    lemma_between_the_ends(from, to, point);
    lemma_classification_along_x(rect, from, to);
    if rect.is_within_bounds(from) {
        let leaving = rect.leaving_point(from, to);
        lemma_inside_is_held(rect, from);
        if rect.holds(point) {
            lemma_leaving_point_is_last(rect, from, to, point);
        }
        if not_before(from, to, point, leaving) {
            lemma_rectangle_is_convex(rect, from, to, exact(from), point, leaving);
        }
    } else if rect.is_within_bounds(to) {
        let entering = rect.leaving_point(to, from);
        lemma_inside_is_held(rect, to);
        lemma_on_segment_is_undirected(from, to, point);
        lemma_order_is_reversed(from, to, entering, point);
        if rect.holds(point) {
            lemma_leaving_point_is_last(rect, to, from, point);
        }
        if not_before(from, to, entering, point) {
            lemma_rectangle_is_convex(rect, from, to, entering, point, exact(to));
        }
    } else if rect.misses_bounds(from, to) || rect.line_misses(from, to) {
        lemma_fully_outside_along_x(rect, from, to, point);
    } else {
        let (first_side, last_side) = if to.x > from.x {
            (rect.left as int, rect.right as int)
        } else {
            (rect.right as int, rect.left as int)
        };
        let entrance = rect.chord_end(from, to, first_side);
        let exit = rect.chord_end(from, to, last_side);
        if rect.holds(point) {
            lemma_chord_end_order(rect, from, to, first_side, point);
            lemma_chord_end_order(rect, from, to, last_side, point);
        }
        if not_before(from, to, entrance, point) && not_before(from, to, point, exit) {
            lemma_rectangle_is_convex(rect, from, to, entrance, point, exit);
        }
    }
}

/// Travelling a segment that extends at least as far horizontally as
/// vertically the other way turns its outcome round.
pub(crate) proof fn lemma_reversal_along_x(rect: RectangularDrawnRegion, from: Point, to: Point)
    requires
        x_dominant(from, to),
        !(rect.is_within_bounds(from) && rect.is_within_bounds(to)),
    ensures
        rect.clip_along_x(to, from) == rect.clip_along_x(from, to).reversed(),
{
    lemma_line_is_undirected(from, to, rect.left as int);
    lemma_line_is_undirected(from, to, rect.right as int);
    lemma_line_is_undirected(from, to, rect.bottom as int);
    lemma_line_is_undirected(from, to, rect.top as int);
}

/// Between two positions, a line takes values between its values there.
/// The line has the value `base` at position zero and gains `height` per
/// unit of position; `first` and `second` are two positions, and
/// `between / scale` lies between them.
proof fn lemma_line_stays_between(
    base: int,
    height: int,
    first: int,
    second: int,
    between: int,
    scale: int,
)
    by (nonlinear_arith)
    requires
        scale > 0,
        first * scale <= between <= second * scale,
    ensures
        height >= 0 ==> (base + height * first) * scale <= base * scale + height * between <= (
        base + height * second) * scale,
        height <= 0 ==> (base + height * first) * scale >= base * scale + height * between >= (
        base + height * second) * scale,
{
}

/// Products of equal factors are equal.
proof fn lemma_same_factors(
    across: int,
    width: int,
    px: int,
    gone: int,
    py: int,
    xd: int,
    yd: int,
    height: int,
)
    by (nonlinear_arith)
    requires
        across == width,
        px == gone,
    ensures
        (across * py) * xd == (width * py) * xd,
        (height * px) * yd == (height * gone) * yd,
{
}

/// Products of opposite factors are opposite.
proof fn lemma_opposite_factors(
    across: int,
    width: int,
    px: int,
    gone: int,
    py: int,
    xd: int,
    yd: int,
    height: int,
)
    by (nonlinear_arith)
    requires
        across == -width,
        px == -gone,
    ensures
        (across * py) * xd == -((width * py) * xd),
        (height * px) * yd == -((height * gone) * yd),
{
}

/// A rearrangement of the products in the height of a point of a line.
proof fn lemma_height_from_slope(width: int, py: int, xd: int, yd: int, yn: int, base: int)
    by (nonlinear_arith)
    requires
        py == yn - base * yd,
    ensures
        (width * py) * xd == (width * xd) * yn - ((base * width) * xd) * yd,
{
}

/// The displacement between two points, from their displacements from a
/// common origin.
proof fn lemma_displaced(
    origin: int,
    pn: int,
    pd: int,
    p: int,
    qn: int,
    qd: int,
    q: int,
    between: int,
)
    by (nonlinear_arith)
    requires
        p == pn - origin * pd,
        q == qn - origin * qd,
        between == qn * pd - pn * qd,
    ensures
        between == q * pd - p * qd,
{
}

/// A rearrangement of the products in the displacement between two points
/// of a line.
proof fn lemma_spread(
    factor: int,
    q: int,
    pd: int,
    p: int,
    qd: int,
    other_pd: int,
    other_qd: int,
    between: int,
)
    requires
        between == q * pd - p * qd,
    ensures
        (factor * between) * (other_pd * other_qd) == ((factor * q) * other_qd) * (pd
            * other_pd) - ((factor * p) * other_pd) * (qd * other_qd),
{
    lemma_times_difference(factor, q * pd, p * qd);
    lemma_sum_times(factor * (q * pd), -(factor * (p * qd)), other_pd * other_qd);
    lemma_negated_times(factor * (p * qd), other_pd * other_qd);
    lemma_regroup(factor, q, pd, other_qd, other_pd);
    lemma_regroup(factor, p, qd, other_pd, other_qd);
    assert(other_qd * other_pd == other_pd * other_qd);
}

/// Both sides of the equation of a line, times the two extents of the line.
proof fn lemma_square_both_sides(
    across: int,
    height: int,
    along: int,
    aside: int,
    along_scale: int,
    aside_scale: int,
)
    by (nonlinear_arith)
    ensures
        ((across * aside) * along_scale) * (across * height) == (aside * height) * ((across
            * across) * along_scale),
        ((height * along) * aside_scale) * (across * height) == ((along * across) * (height
            * height)) * aside_scale,
{
}

/// For two points of a line that is not vertical: if the second does not
/// lie back horizontally, it does not lie back vertically either.
proof fn lemma_order_carries_over(
    across: int,
    height: int,
    along: int,
    aside: int,
    along_scale: int,
    aside_scale: int,
)
    requires
        across != 0,
        along_scale > 0,
        aside_scale > 0,
        (across * aside) * along_scale == (height * along) * aside_scale,
        along * across >= 0,
    ensures
        aside * height >= 0,
{
    lemma_equal_times(
        (across * aside) * along_scale,
        (height * along) * aside_scale,
        across * height,
    );
    lemma_square_both_sides(across, height, along, aside, along_scale, aside_scale);
    lemma_product_sign(across, across);
    lemma_product_sign(across * across, along_scale);
    lemma_product_sign(height, height);
    lemma_product_sign(along * across, height * height);
    lemma_product_sign((along * across) * (height * height), aside_scale);
    lemma_product_sign(aside * height, (across * across) * along_scale);
}

/// Seen along the direction of travel, horizontally and vertically, a
/// segment runs from `(0, 0)` to `(width, rise)`, and a rectangle lies
/// between the positions `near` and `far` and between the heights `level`
/// and `other_level`. If both ends of the segment are outside the rectangle,
/// without both lying beyond one and the same of its bounds, and the line
/// through the segment reaches the height `level` between `near` and `far`,
/// then the segment itself reaches that height.
proof fn lemma_level_is_reached(
    width: int,
    rise: int,
    near: int,
    far: int,
    level: int,
    other_level: int,
)
    requires
        width > 0,
        rise > 0,
        (near * rise < level * width && level * width <= far * rise) || (near * rise > level
            * width && level * width >= far * rise),
        !(lesser(near, far) <= 0 <= greater(near, far) && lesser(level, other_level) <= 0
            <= greater(level, other_level)),
        !(lesser(near, far) <= width <= greater(near, far) && lesser(level, other_level) <= rise
            <= greater(level, other_level)),
        greater(near, far) >= 0,
        lesser(near, far) <= width,
        greater(level, other_level) >= 0,
        lesser(level, other_level) <= rise,
    ensures
        0 <= level <= rise,
{
    lemma_product_sign(near, rise);
    lemma_product_sign(far, rise);
    lemma_product_sign(level, width);
    if level > rise {
        lemma_scale_strictly(rise, level, width);
        if near <= width {
            lemma_scale_keeps_order(near, width, rise);
        }
        if far <= width {
            lemma_scale_keeps_order(far, width, rise);
        }
    }
}

/// Where the line through a segment with ends on both sides of a vertical
/// line, or on it, meets that line, it does so in a point of the segment.
pub(crate) proof fn lemma_meeting_is_on_segment(from: Point, to: Point, x: int)
    requires
        from.x != to.x,
        !(from.x < x && to.x < x),
        !(from.x > x && to.x > x),
    ensures
        ordinate_at(from, to, x).den > 0,
        on_segment(from, to, ExactPoint { x: Ratio::whole(x), y: ordinate_at(from, to, x) }),
{
    let point = ExactPoint { x: Ratio::whole(x), y: ordinate_at(from, to, x) };
    let width = extent(from, to);
    let height = to.y - from.y;
    let gone = ahead(from, to, x);
    let first = lesser(from.x as int, to.x as int);
    let last = greater(from.x as int, to.x as int);
    assert(0 <= gone <= width);
    lemma_partial_gain(height, gone, width);
    lemma_sum_times(from.y as int, height, width);
    lemma_times_one(first, point.x.den);
    lemma_times_one(last, point.x.den);
    lemma_times_one(from.x as int, point.x.den);
    lemma_side_point_is_on_line(
        to.x - from.x,
        height,
        width,
        gone,
        from.y as int,
        x - from.x,
        point.y.num,
        point.x.den,
    );
}

/// The arithmetic of a point of a line on a vertical line: it is displaced
/// from the start of the line in the direction of the line.
proof fn lemma_side_point_is_on_line(
    across: int,
    height: int,
    width: int,
    gone: int,
    base: int,
    aside: int,
    yn: int,
    one: int,
)
    by (nonlinear_arith)
    requires
        (across == width && aside == gone) || (across == -width && aside == -gone),
        yn == base * width + height * gone,
        one == 1,
    ensures
        (across * (yn - base * width)) * one == (height * aside) * width,
{
}

/// Where a steep segment that is not vertical meets the stretch of a
/// vertical line between two heights, the meeting point lies between those
/// heights.
pub(crate) proof fn lemma_sweep_reaches_side(from: Point, to: Point, x: int, lo: int, hi: int)
    requires
        from.x != to.x,
        from.y != to.y,
        lo <= hi,
        abscissa_at(from, to, lo).at_most(x) || abscissa_at(from, to, hi).at_most(x),
        abscissa_at(from, to, lo).at_least(x) || abscissa_at(from, to, hi).at_least(x),
    ensures
        ordinate_at(from, to, x).within(lo, hi),
{
    let across = to.x - from.x;
    let height = to.y - from.y;
    let width = extent(from, to);
    let rise = extent(from.transposed(), to.transposed());
    let gone = ahead(from, to, x);
    let low = ahead(from.transposed(), to.transposed(), lo);
    let high = ahead(from.transposed(), to.transposed(), hi);
    assert(abscissa_at(from, to, lo).num == from.x * rise + across * low);
    assert(abscissa_at(from, to, hi).num == from.x * rise + across * high);
    assert(abscissa_at(from, to, lo).den == rise);
    assert(ordinate_at(from, to, x).num == from.y * width + height * gone);
    assert(ordinate_at(from, to, x).den == width);
    lemma_sum_times(from.x as int, x - from.x, rise);
    lemma_sum_times(from.y as int, lo - from.y, width);
    lemma_sum_times(from.y as int, hi - from.y, width);
    if to.x > from.x {
        lemma_equal_times(across, width, low);
        lemma_equal_times(across, width, high);
        lemma_equal_times(x - from.x, gone, rise);
    } else {
        lemma_equal_times(across, -width, low);
        lemma_equal_times(across, -width, high);
        lemma_equal_times(x - from.x, -gone, rise);
        lemma_negated_times(width, low);
        lemma_negated_times(width, high);
        lemma_negated_times(gone, rise);
    }
    if to.y > from.y {
        lemma_equal_times(height, rise, gone);
        lemma_equal_times(lo - from.y, low, width);
        lemma_equal_times(hi - from.y, high, width);
        lemma_scale_keeps_order(low, high, width);
    } else {
        lemma_equal_times(height, -rise, gone);
        lemma_equal_times(lo - from.y, -low, width);
        lemma_equal_times(hi - from.y, -high, width);
        lemma_negated_times(rise, gone);
        lemma_negated_times(low, width);
        lemma_negated_times(high, width);
        lemma_scale_keeps_order(high, low, width);
    }
    lemma_swap_factors(rise, gone);
    lemma_swap_factors(width, low);
    lemma_swap_factors(width, high);
}

/// What a segment followed along the horizontal axis is found to meet a
/// stretch of a vertical line in, it does meet it in.
pub(crate) proof fn lemma_meeting_along_is_met(x: int, lo: int, hi: int, from: Point, to: Point)
    requires
        from.x != to.x,
        !passes_by(x, lo, hi, from, to),
    ensures
        meeting_along(x, lo, hi, from, to) matches Some(point) ==> meets_stretch(
            x,
            lo,
            hi,
            from,
            to,
            point,
        ),
{
    lemma_meeting_is_on_segment(from, to, x);
    lemma_times_one(x, Ratio::whole(x).den);
}

/// What a segment followed along the vertical axis is found to meet a
/// stretch of a vertical line in, it does meet it in.
pub(crate) proof fn lemma_meeting_across_is_met(x: int, lo: int, hi: int, from: Point, to: Point)
    requires
        from.y != to.y,
        lo <= hi,
        !passes_by(x, lo, hi, from, to),
    ensures
        meeting_across(x, lo, hi, from, to) matches Some(point) ==> meets_stretch(
            x,
            lo,
            hi,
            from,
            to,
            point,
        ),
{
    if meeting_across(x, lo, hi, from, to) is Some {
        let point = meeting_across(x, lo, hi, from, to)->0;
        lemma_times_one(x, point.x.den);
        if from.x != to.x {
            lemma_meeting_is_on_segment(from, to, x);
            lemma_sweep_reaches_side(from, to, x, lo, hi);
        } else {
            let one = point.y.den;
            assert(x == from.x);
            lemma_times_one(lo, one);
            lemma_times_one(hi, one);
            lemma_times_one(from.x as int, one);
            lemma_times_one(from.y as int, one);
            lemma_times_one(lesser(from.x as int, to.x as int), one);
            lemma_times_one(greater(from.x as int, to.x as int), one);
            lemma_times_one(lesser(from.y as int, to.y as int), one);
            lemma_times_one(greater(from.y as int, to.y as int), one);
            lemma_upright_point_is_on_line(
                to.x - from.x,
                to.y - from.y,
                point.x.num,
                from.x as int,
                point.y.num,
                from.y as int,
                point.x.den,
                point.y.den,
            );
        }
    }
}

/// The arithmetic of a point of a vertical line: it is displaced from the
/// start of the line in the direction of the line.
proof fn lemma_upright_point_is_on_line(
    across: int,
    height: int,
    xn: int,
    fx: int,
    yn: int,
    fy: int,
    xd: int,
    yd: int,
)
    by (nonlinear_arith)
    requires
        across == 0,
        xn == fx,
        xd == 1,
    ensures
        (across * (yn - fy * yd)) * xd == (height * (xn - fx * xd)) * yd,
{
}

/// A degenerate rectangle holds no point.
pub(crate) proof fn lemma_degenerate_holds_nothing(rect: RectangularDrawnRegion, point: ExactPoint)
    requires
        !rect.is_proper(),
        point.well_formed(),
    ensures
        !rect.holds(point),
{
    if rect.left > rect.right {
        lemma_scale_strictly(rect.right as int, rect.left as int, point.x.den);
    } else {
        lemma_scale_strictly(rect.top as int, rect.bottom as int, point.y.den);
    }
}

/// A segment that has a point on a stretch of a vertical line does not pass
/// the stretch by.
pub(crate) proof fn lemma_stretch_is_not_passed_by(
    x: int,
    lo: int,
    hi: int,
    from: Point,
    to: Point,
    point: ExactPoint,
)
    requires
        meets_stretch(x, lo, hi, from, to, point),
    ensures
        lo <= hi,
        !passes_by(x, lo, hi, from, to),
{
    let xd = point.x.den;
    let yd = point.y.den;
    lemma_cancel_order(lo, hi, yd);
    if from.x < x && to.x < x {
        lemma_scale_strictly(greater(from.x as int, to.x as int), x, xd);
    }
    if from.x > x && to.x > x {
        lemma_scale_strictly(x, lesser(from.x as int, to.x as int), xd);
    }
    if from.y < lo && to.y < lo {
        lemma_scale_strictly(greater(from.y as int, to.y as int), lo, yd);
    }
    if from.y > hi && to.y > hi {
        lemma_scale_strictly(hi, lesser(from.y as int, to.y as int), yd);
    }
}

/// How far a point on the vertical line at `x` lies ahead of `from`, times
/// the denominator of its horizontal coordinate.
proof fn lemma_gone_to_line(from: Point, to: Point, x: int, point: ExactPoint) -> (gone: int)
    requires
        point.x.is_whole(x),
    ensures
        gone == ahead(from, to, x) * point.x.den,
        to.x > from.x ==> gone == point.x.num - from.x * point.x.den,
        to.x <= from.x ==> gone == -(point.x.num - from.x * point.x.den),
{
    let xd = point.x.den;
    lemma_sum_times(x, -(from.x as int), xd);
    lemma_sum_times(from.x as int, -x, xd);
    lemma_negated_times(from.x as int, xd);
    lemma_negated_times(x, xd);
    ahead(from, to, x) * xd
}

/// A segment that is not vertical and has a point on a stretch of a
/// vertical line is found to meet it when followed along the horizontal
/// axis.
pub(crate) proof fn lemma_along_finds(
    x: int,
    lo: int,
    hi: int,
    from: Point,
    to: Point,
    point: ExactPoint,
)
    requires
        from.x != to.x,
        meets_stretch(x, lo, hi, from, to, point),
    ensures
        meeting_along(x, lo, hi, from, to) is Some,
{
    let width = extent(from, to);
    let height = to.y - from.y;
    let gone = ahead(from, to, x);
    let xd = point.x.den;
    let yd = point.y.den;
    let scaled = lemma_gone_to_line(from, to, x, point);
    lemma_height_on_line(from, to, point, scaled);
    lemma_value_on_line(from.y * width, height, gone, scaled, xd, yd);
    lemma_value_is_within(
        width,
        from.y * width + height * gone,
        xd,
        yd,
        point.y.num,
        lo,
        hi,
    );
    assert(ordinate_at(from, to, x).num == from.y * width + height * gone);
    assert(ordinate_at(from, to, x).den == width);
}

/// The value of a line at a position, scaled as the position is.
proof fn lemma_value_on_line(base: int, height: int, gone: int, scaled: int, xd: int, yd: int)
    requires
        scaled == gone * xd,
    ensures
        (base * xd + height * scaled) * yd == ((base + height * gone) * xd) * yd,
{
    lemma_times_equal(height, scaled, gone * xd);
    lemma_group_three(height, gone, xd);
    lemma_sum_times(base, height * gone, xd);
    lemma_equal_times(base * xd + height * scaled, (base + height * gone) * xd, yd);
}

/// A fraction `value / width` that equals a fraction within a range is
/// within that range.
proof fn lemma_value_is_within(
    width: int,
    value: int,
    xd: int,
    yd: int,
    yn: int,
    lo: int,
    hi: int,
)
    requires
        width > 0,
        xd > 0,
        yd > 0,
        (width * xd) * yn == (value * xd) * yd,
        lo * yd <= yn <= hi * yd,
    ensures
        lo * width <= value <= hi * width,
{
    let weight = width * xd;
    lemma_product_sign(width, xd);
    lemma_scale_keeps_order(lo * yd, yn, weight);
    lemma_scale_keeps_order(yn, hi * yd, weight);
    lemma_swap_factors(yn, weight);
    lemma_group_four(lo, yd, width, xd);
    lemma_group_four(hi, yd, width, xd);
    lemma_cancel_order((lo * width) * xd, value * xd, yd);
    lemma_cancel_order(value * xd, (hi * width) * xd, yd);
    lemma_cancel_order(lo * width, value, xd);
    lemma_cancel_order(value, hi * width, xd);
}

/// A segment that is not horizontal and has a point on a stretch of a
/// vertical line is found to meet it when followed along the vertical axis.
pub(crate) proof fn lemma_across_finds(
    x: int,
    lo: int,
    hi: int,
    from: Point,
    to: Point,
    point: ExactPoint,
)
    requires
        from.y != to.y,
        meets_stretch(x, lo, hi, from, to, point),
    ensures
        meeting_across(x, lo, hi, from, to) is Some,
{
    let turned_from = from.transposed();
    let turned_to = to.transposed();
    let turned = point.transposed();
    let across = to.x - from.x;
    let rise = extent(turned_from, turned_to);
    let low = ahead(turned_from, turned_to, lo);
    let high = ahead(turned_from, turned_to, hi);
    let xd = point.x.den;
    let yd = point.y.den;
    let base = from.x * rise;
    let risen = if to.y > from.y {
        point.y.num - from.y * yd
    } else {
        -(point.y.num - from.y * yd)
    };
    assert(on_line(turned_from, turned_to, turned));
    lemma_height_on_line(turned_from, turned_to, turned, risen);
    let value = base * yd + across * risen;
    assert((rise * yd) * point.x.num == value * xd);
    lemma_position_on_line(rise, x, xd, yd, point.x.num, value);
    assert(value == (x * rise) * yd);
    lemma_sum_times(lo, -(from.y as int), yd);
    lemma_sum_times(hi, -(from.y as int), yd);
    lemma_sum_times(from.y as int, -lo, yd);
    lemma_sum_times(from.y as int, -hi, yd);
    lemma_negated_times(from.y as int, yd);
    lemma_negated_times(lo, yd);
    lemma_negated_times(hi, yd);
    let at_lo = abscissa_at(from, to, lo);
    let at_hi = abscissa_at(from, to, hi);
    assert(at_lo.num == base + across * low);
    assert(at_hi.num == base + across * high);
    assert(at_lo.den == rise && at_hi.den == rise);
    if to.y > from.y {
        assert(low * yd <= risen <= high * yd);
        lemma_line_stays_between(base, across, low, high, risen, yd);
    } else {
        assert(high * yd <= risen <= low * yd);
        lemma_line_stays_between(base, across, high, low, risen, yd);
    }
    if at_lo.num * yd <= value {
        lemma_cancel_order(at_lo.num, x * rise, yd);
    }
    if at_hi.num * yd <= value {
        lemma_cancel_order(at_hi.num, x * rise, yd);
    }
    if at_lo.num * yd >= value {
        lemma_cancel_order(x * rise, at_lo.num, yd);
    }
    if at_hi.num * yd >= value {
        lemma_cancel_order(x * rise, at_hi.num, yd);
    }
}

/// The position of a point of a line, from the value of the line there.
proof fn lemma_position_on_line(rise: int, x: int, xd: int, yd: int, xn: int, value: int)
    requires
        xd > 0,
        xn == x * xd,
        (rise * yd) * xn == value * xd,
    ensures
        value == (x * rise) * yd,
{
    lemma_times_equal(rise * yd, xn, x * xd);
    lemma_swap_factors(rise * yd, x * xd);
    lemma_group_four(x, xd, rise, yd);
    lemma_cancel_equal(value, (x * rise) * yd, xd);
}

/// A segment of length zero that does not pass a stretch of a vertical line
/// by meets it in its one point.
pub(crate) proof fn lemma_end_is_met(x: int, lo: int, hi: int, from: Point, to: Point)
    requires
        from == to,
        lo <= hi,
        !passes_by(x, lo, hi, from, to),
    ensures
        meets_stretch(
            x,
            lo,
            hi,
            from,
            to,
            ExactPoint { x: Ratio::whole(x), y: Ratio::whole(from.y as int) },
        ),
{
    let point = ExactPoint { x: Ratio::whole(x), y: Ratio::whole(from.y as int) };
    assert(point == exact(from));
    lemma_ends_are_on_segment(from, to);
    lemma_times_one(x, point.x.den);
    lemma_times_one(lo, point.y.den);
    lemma_times_one(hi, point.y.den);
}

} // verus!
