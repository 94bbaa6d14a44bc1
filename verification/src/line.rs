//! The line through two grid points: where it meets a vertical or a
//! horizontal grid line, as an exact fraction.

use vstd::prelude::*;
use crate::arithmetic::lemma_product_bound;
use crate::fraction::{Fraction, Ratio};
use crate::point::Point;

verus! {

/// How far `x` lies ahead of `from`, seen in the direction in which the
/// segment from `from` to `to` runs horizontally; negative where `x` lies
/// behind `from`.
pub open spec fn ahead(from: Point, to: Point, x: int) -> int {
    if to.x > from.x {
        x - from.x
    } else {
        from.x - x
    }
}

/// The horizontal extent of the segment: how far `to` lies ahead of `from`.
pub open spec fn extent(from: Point, to: Point) -> int {
    ahead(from, to, to.x as int)
}

/// The height at which the line through `from` and `to` meets the vertical
/// line at `x`: from the height of `from`, the line gains the height of the
/// segment over its extent. The denominator is that extent. A vertical
/// segment meets no vertical line in one point; for it the result is
/// `0 / 0`, which is the value of no fraction.
pub open spec fn ordinate_at(from: Point, to: Point, x: int) -> Ratio {
    if to.x == from.x {
        Ratio { num: 0, den: 0 }
    } else {
        Ratio {
            num: from.y * extent(from, to) + (to.y - from.y) * ahead(from, to, x),
            den: extent(from, to),
        }
    }
}

/// The horizontal position at which the line through `from` and `to` meets
/// the horizontal line at `y`; `0 / 0` for a horizontal segment.
pub open spec fn abscissa_at(from: Point, to: Point, y: int) -> Ratio {
    ordinate_at(from.transposed(), to.transposed(), y)
}

/// Computes [`ordinate_at`] for a segment that is not vertical.
pub fn ordinate(from: Point, to: Point, x: i32) -> (r: Fraction)
    requires
        from.x != to.x,
    ensures
        r@ == ordinate_at(from, to, x as int),
{
    let dy: i64 = to.y as i64 - from.y as i64;
    let (extent, ahead): (i64, i64) = if to.x > from.x {
        (to.x as i64 - from.x as i64, x as i64 - from.x as i64)
    } else {
        (from.x as i64 - to.x as i64, from.x as i64 - x as i64)
    };
    proof {
        lemma_product_bound(from.y as int, extent as int, 0x8000_0000, 0x1_0000_0000);
        lemma_product_bound(dy as int, ahead as int, 0x1_0000_0000, 0x1_0000_0000);
    }
    let num: i128 = (from.y as i128) * (extent as i128) + (dy as i128) * (ahead as i128);
    Fraction::ratio(num, extent)
}

/// Computes [`abscissa_at`] for a segment that is not horizontal.
pub fn abscissa(from: Point, to: Point, y: i32) -> (r: Fraction)
    requires
        from.y != to.y,
    ensures
        r@ == abscissa_at(from, to, y as int),
{
    ordinate(from.transpose(), to.transpose(), y)
}

} // verus!
