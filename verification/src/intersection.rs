//! What clipping a directed segment against a region can give.

use vstd::prelude::*;
use crate::fraction::{Fraction, Ratio};

verus! {

/// A point of the plane with exact, possibly fractional, coordinates: the
/// mathematical value of a [`BoundaryPoint`].
pub struct ExactPoint {
    pub x: Ratio,
    pub y: Ratio,
}

impl ExactPoint {
    /// The mirror image of this point in the diagonal `x == y`.
    pub open spec fn transposed(self) -> ExactPoint {
        ExactPoint { x: self.y, y: self.x }
    }

    /// Both coordinates have positive denominators.
    pub open spec fn well_formed(self) -> bool {
        self.x.den > 0 && self.y.den > 0
    }
}

/// A point at which a segment between grid points meets the boundary of a
/// region. It need not be a grid point, so its coordinates are fractions.
#[derive(Clone, Copy, Debug, PartialEq, Eq, Structural)]
pub struct BoundaryPoint {
    pub x: Fraction,
    pub y: Fraction,
}

impl View for BoundaryPoint {
    type V = ExactPoint;

    open spec fn view(&self) -> ExactPoint {
        ExactPoint { x: self.x@, y: self.y@ }
    }
}

impl BoundaryPoint {
    /// The point with the given coordinates.
    pub fn new(x: Fraction, y: Fraction) -> (p: BoundaryPoint)
        ensures
            p.x == x,
            p.y == y,
    {
        BoundaryPoint { x, y }
    }

    /// The horizontal coordinate.
    pub fn get_x(&self) -> (x: Fraction)
        ensures
            x == self.x,
    {
        self.x
    }

    /// The vertical coordinate.
    pub fn get_y(&self) -> (y: Fraction)
        ensures
            y == self.y,
    {
        self.y
    }

    /// Swaps the two coordinates.
    pub fn transpose(&self) -> (p: BoundaryPoint)
        ensures
            p@ == self@.transposed(),
    {
        BoundaryPoint { x: self.y, y: self.x }
    }
}

/// The mathematical value of a [`LineIntersection`].
pub enum Clipping {
    FullyInside,
    FullyOutside,
    Enters { point: ExactPoint },
    Exits { point: ExactPoint },
    Crosses { entrance: ExactPoint, exit: ExactPoint },
}

impl Clipping {
    /// The same outcome in the plane mirrored in the diagonal `x == y`.
    pub open spec fn transposed(self) -> Clipping {
        match self {
            Clipping::FullyInside => Clipping::FullyInside,
            Clipping::FullyOutside => Clipping::FullyOutside,
            Clipping::Enters { point } => Clipping::Enters { point: point.transposed() },
            Clipping::Exits { point } => Clipping::Exits { point: point.transposed() },
            Clipping::Crosses { entrance, exit } => Clipping::Crosses {
                entrance: entrance.transposed(),
                exit: exit.transposed(),
            },
        }
    }

    /// The outcome for the same segment travelled the other way: entering
    /// and leaving change places.
    pub open spec fn reversed(self) -> Clipping {
        match self {
            Clipping::FullyInside => Clipping::FullyInside,
            Clipping::FullyOutside => Clipping::FullyOutside,
            Clipping::Enters { point } => Clipping::Exits { point },
            Clipping::Exits { point } => Clipping::Enters { point },
            Clipping::Crosses { entrance, exit } => Clipping::Crosses {
                entrance: exit,
                exit: entrance,
            },
        }
    }
}

/// How a directed segment lies with respect to a region.
#[derive(Clone, Copy, Debug, PartialEq, Eq, Structural)]
pub enum LineIntersection {
    /// Both ends are inside.
    FullyInside,
    /// No point of the segment is inside.
    FullyOutside,
    /// The segment starts outside and ends inside; `point` is where it
    /// enters.
    Enters { point: BoundaryPoint },
    /// The segment starts inside and ends outside; `point` is where it
    /// leaves.
    Exits { point: BoundaryPoint },
    /// Both ends are outside and the segment passes through the region,
    /// from `entrance` to `exit`.
    Crosses { entrance: BoundaryPoint, exit: BoundaryPoint },
}

impl View for LineIntersection {
    type V = Clipping;

    open spec fn view(&self) -> Clipping {
        match *self {
            LineIntersection::FullyInside => Clipping::FullyInside,
            LineIntersection::FullyOutside => Clipping::FullyOutside,
            LineIntersection::Enters { point } => Clipping::Enters { point: point@ },
            LineIntersection::Exits { point } => Clipping::Exits { point: point@ },
            LineIntersection::Crosses { entrance, exit } => Clipping::Crosses {
                entrance: entrance@,
                exit: exit@,
            },
        }
    }
}

impl LineIntersection {
    /// Swaps the two coordinates of every point of the outcome.
    pub fn transpose(&self) -> (r: LineIntersection)
        ensures
            r@ == self@.transposed(),
    {
        match *self {
            LineIntersection::FullyInside => LineIntersection::FullyInside,
            LineIntersection::FullyOutside => LineIntersection::FullyOutside,
            LineIntersection::Enters { point } => LineIntersection::Enters {
                point: point.transpose(),
            },
            LineIntersection::Exits { point } => LineIntersection::Exits {
                point: point.transpose(),
            },
            LineIntersection::Crosses { entrance, exit } => LineIntersection::Crosses {
                entrance: entrance.transpose(),
                exit: exit.transpose(),
            },
        }
    }
}

} // verus!
