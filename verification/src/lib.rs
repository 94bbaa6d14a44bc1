//! Drawn regions: the parts of their domains in which the components of a
//! user interface have drawn something.
//!
//! A region tells whether a point belongs to it ([`DrawnRegion::is_inside`])
//! and how a directed segment lies to it
//! ([`DrawnRegion::find_line_intersection`]). Points lie on a grid of whole
//! units, whose size is the caller's choice. The points in which a segment
//! meets the boundary of a region need not be grid points; they are given
//! exactly, as [`Fraction`]s, so that nothing is rounded.
//!
//! - [`point`], [`fraction`], [`intersection`]: the values.
//! - [`region`]: the capability of every shape; [`rectangle`] and
//!   [`transformed`]: the two shapes.
//! - [`line`], [`clip`], [`edge`]: clipping against rectangles and their
//!   sides.
//! - [`geometry`], [`laws`]: what clipping means, and the proofs that it
//!   does; [`arithmetic`]: the facts about integers that they rest on.
//! - [`buddy`], [`pointer`]: the bookkeeping of a component in a menu and of
//!   the mouse pointer of a window.

pub mod arithmetic;
pub mod buddy;
pub mod clip;
pub mod edge;
pub mod fraction;
pub mod geometry;
pub mod intersection;
pub mod laws;
pub mod line;
pub mod point;
pub mod pointer;
mod proofs;
pub mod rectangle;
pub mod region;
pub mod transformed;

pub use buddy::{ComponentSubscriptions, RenderResultStruct, SimpleFlatBuddy};
pub use edge::{find_horizontal_line_intersection, find_vertical_line_intersection};
pub use fraction::{Fraction, Ratio};
pub use intersection::{BoundaryPoint, Clipping, ExactPoint, LineIntersection};
pub use point::Point;
pub use pointer::{
    wait_before_frame, PixelPosition, PointerAction, PointerButton, PointerEvent, PointerTracker,
    FRAME_MILLIS,
};
pub use rectangle::RectangularDrawnRegion;
pub use region::DrawnRegion;
pub use transformed::TransformedDrawnRegion;
