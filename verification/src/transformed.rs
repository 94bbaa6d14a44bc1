//! A region seen through a mapping of the plane.

use vstd::prelude::*;
use crate::intersection::{Clipping, LineIntersection};
use crate::point::Point;
use crate::region::DrawnRegion;

verus! {

/// Wraps a region and a mapping of grid points: a point belongs to the
/// wrapper when its image under the mapping belongs to the wrapped region.
///
/// The four bounds are given by whoever builds the wrapper and are not
/// derived from the mapping. That they enclose every point of the wrapper is
/// part of [`DrawnRegion::well_formed`], which every query asks for.
pub struct TransformedDrawnRegion<R: DrawnRegion, T: Copy + Fn(Point) -> Point> {
    pub region: R,
    pub transform_function: T,
    pub left_bound: i32,
    pub bottom_bound: i32,
    pub right_bound: i32,
    pub top_bound: i32,
}

impl<R: DrawnRegion, T: Copy + Fn(Point) -> Point> TransformedDrawnRegion<R, T> {
    /// Wraps `region` behind `transform_function`, with the given bounds.
    pub fn new(
        region: R,
        transform_function: T,
        left_bound: i32,
        bottom_bound: i32,
        right_bound: i32,
        top_bound: i32,
    ) -> (wrapper: Self)
        ensures
            wrapper.region == region,
            wrapper.transform_function == transform_function,
            wrapper.left_bound == left_bound,
            wrapper.bottom_bound == bottom_bound,
            wrapper.right_bound == right_bound,
            wrapper.top_bound == top_bound,
    {
        Self { region, transform_function, left_bound, bottom_bound, right_bound, top_bound }
    }

    /// The mapping can be applied to every point.
    pub open spec fn mapping_is_total(&self) -> bool {
        forall|point: Point| #[trigger] call_requires(self.transform_function, (point,))
    }

    /// Whatever the mapping may return for one point, the wrapped region
    /// gives the same answer for it.
    pub open spec fn mapping_is_decisive(&self) -> bool {
        forall|point: Point, first: Point, second: Point|
            #[trigger] call_ensures(self.transform_function, (point,), first)
                && #[trigger] call_ensures(self.transform_function, (point,), second)
                ==> self.region.contains(first) == self.region.contains(second)
    }

    /// The mapping can return `image` for `point`, and the wrapped region
    /// contains `image`.
    pub open spec fn maps_into_region(&self, point: Point, image: Point) -> bool {
        call_ensures(self.transform_function, (point,), image) && self.region.contains(image)
    }

    /// The given bounds enclose every point of the wrapper.
    pub open spec fn bounds_enclose(&self) -> bool {
        forall|point: Point, image: Point| #[trigger]
            self.maps_into_region(point, image) ==> self.left_bound <= point.x
                <= self.right_bound && self.bottom_bound <= point.y <= self.top_bound
    }

    /// Spells out what the specification of [`DrawnRegion`] says of a
    /// wrapper: what it takes for it to be well formed, which points it
    /// contains, what its bounds are, and that it cannot clip segments.
    pub proof fn lemma_meaning(&self)
        ensures
            self.well_formed() == (self.region.well_formed() && self.mapping_is_total()
                && self.mapping_is_decisive() && self.bounds_enclose()),
            forall|point: Point| #[trigger]
                self.contains(point) == exists|image: Point|
                    self.maps_into_region(point, image),
            self.left_bound() == self.left_bound,
            self.bottom_bound() == self.bottom_bound,
            self.right_bound() == self.right_bound,
            self.top_bound() == self.top_bound,
            !self.clips_lines(),
    {
    }
}

impl<R: DrawnRegion, T: Copy + Fn(Point) -> Point> DrawnRegion for TransformedDrawnRegion<R, T> {
    open spec fn well_formed(&self) -> bool {
        &&& self.region.well_formed()
        &&& self.mapping_is_total()
        &&& self.mapping_is_decisive()
        &&& self.bounds_enclose()
    }

    open spec fn contains(&self, point: Point) -> bool {
        exists|image: Point| self.maps_into_region(point, image)
    }

    open spec fn left_bound(&self) -> int {
        self.left_bound as int
    }

    open spec fn bottom_bound(&self) -> int {
        self.bottom_bound as int
    }

    open spec fn right_bound(&self) -> int {
        self.right_bound as int
    }

    open spec fn top_bound(&self) -> int {
        self.top_bound as int
    }

    open spec fn clips_lines(&self) -> bool {
        false
    }

    open spec fn clipping(&self, from: Point, to: Point) -> Clipping {
        Clipping::FullyOutside
    }

    proof fn lemma_contained_within_bounds(&self, point: Point) {
        let image = choose|image: Point| self.maps_into_region(point, image);
        assert(self.maps_into_region(point, image));
    }

    fn is_inside(&self, point: Point) -> (inside: bool)
        ensures
            exists|image: Point| #[trigger]
                call_ensures(self.transform_function, (point,), image) && inside
                    == self.region.contains(image),
    {
        let transformed = (self.transform_function)(point);
        let inside = self.region.is_inside(transformed);
        proof {
            if inside {
                assert(self.maps_into_region(point, transformed));
            }
        }
        inside
    }

    fn clone(&self) -> (copy: Self) {
        let copy = Self {
            region: self.region.clone(),
            transform_function: self.transform_function,
            left_bound: self.left_bound,
            bottom_bound: self.bottom_bound,
            right_bound: self.right_bound,
            top_bound: self.top_bound,
        };
        proof {
            assert forall|point: Point, image: Point|
                copy.maps_into_region(point, image) == self.maps_into_region(
                    point,
                    image,
                ) by {
                assert(copy.region.contains(image) == self.region.contains(image));
            }
            assert forall|point: Point| copy.contains(point) == self.contains(point) by {
                if copy.contains(point) {
                    let image = choose|image: Point| copy.maps_into_region(point, image);
                    assert(self.maps_into_region(point, image));
                }
                if self.contains(point) {
                    let image = choose|image: Point| self.maps_into_region(point, image);
                    assert(copy.maps_into_region(point, image));
                }
            }
            assert(copy.transform_function == self.transform_function);
            assert(copy.mapping_is_total() == self.mapping_is_total()) by {
                if self.mapping_is_total() {
                    assert forall|point: Point| #[trigger]
                        call_requires(copy.transform_function, (point,)) by {
                        assert(call_requires(self.transform_function, (point,)));
                    }
                }
                if copy.mapping_is_total() {
                    assert forall|point: Point| #[trigger]
                        call_requires(self.transform_function, (point,)) by {
                        assert(call_requires(copy.transform_function, (point,)));
                    }
                }
            }
            assert(copy.mapping_is_decisive() == self.mapping_is_decisive()) by {
                assert forall|image: Point|
                    copy.region.contains(image) == self.region.contains(image) by {}
            }
            assert(copy.bounds_enclose() == self.bounds_enclose());
        }
        copy
    }

    fn get_left(&self) -> (bound: i32) {
        self.left_bound
    }

    fn get_bottom(&self) -> (bound: i32) {
        self.bottom_bound
    }

    fn get_right(&self) -> (bound: i32) {
        self.right_bound
    }

    fn get_top(&self) -> (bound: i32) {
        self.top_bound
    }

    fn can_clip_lines(&self) -> (able: bool) {
        false
    }

    fn find_line_intersection(&self, from: Point, to: Point) -> (found: LineIntersection) {
        vstd::pervasive::unreached()
    }
}

} // verus!
