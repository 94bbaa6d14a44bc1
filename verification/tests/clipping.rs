use knukki::{
    find_horizontal_line_intersection, find_vertical_line_intersection, BoundaryPoint,
    DrawnRegion, Fraction, LineIntersection, Point, RectangularDrawnRegion,
};

fn parts(fraction: Fraction) -> (i128, i64) {
    (fraction.numerator(), fraction.denominator())
}

fn same_value(fraction: Fraction, num: i128, den: i128) -> bool {
    fraction.numerator() * den == num * fraction.denominator() as i128
}

fn at(point: BoundaryPoint, x: (i128, i128), y: (i128, i128)) -> bool {
    same_value(point.get_x(), x.0, x.1) && same_value(point.get_y(), y.0, y.1)
}

fn reversed(outcome: LineIntersection) -> LineIntersection {
    match outcome {
        LineIntersection::Enters { point } => LineIntersection::Exits { point },
        LineIntersection::Exits { point } => LineIntersection::Enters { point },
        LineIntersection::Crosses { entrance, exit } => {
            LineIntersection::Crosses { entrance: exit, exit: entrance }
        }
        other => other,
    }
}

fn sample_points() -> Vec<Point> {
    let mut points = Vec::new();
    for x in [-7, -1, 0, 1, 4, 9, 10, 11, 17] {
        for y in [-6, -1, 0, 2, 5, 6, 7, 13] {
            points.push(Point::new(x, y));
        }
    }
    points
}

#[test]
fn leaving_to_the_right_gives_the_exact_fraction() {
    let rect = RectangularDrawnRegion::new(30, 10, 100, 20);
    let found = rect.find_line_intersection(Point::new(65, 15), Point::new(135, 17));
    match found {
        LineIntersection::Exits { point } => {
            assert_eq!((100, 1), parts(point.get_x()));
            assert_eq!((1120, 70), parts(point.get_y()));
            assert!(at(point, (100, 1), (16, 1)));
        }
        other => panic!("unexpected outcome {:?}", other),
    }
}

#[test]
fn entering_from_the_right_gives_the_same_fraction() {
    let rect = RectangularDrawnRegion::new(30, 10, 100, 20);
    let found = rect.find_line_intersection(Point::new(135, 17), Point::new(65, 15));
    match found {
        LineIntersection::Enters { point } => {
            assert_eq!((100, 1), parts(point.get_x()));
            assert_eq!((1120, 70), parts(point.get_y()));
        }
        other => panic!("unexpected outcome {:?}", other),
    }
}

#[test]
fn crossing_gives_entrance_before_exit() {
    let rect = RectangularDrawnRegion::new(30, 10, 100, 20);
    let found = rect.find_line_intersection(Point::new(-5, 13), Point::new(135, 17));
    match found {
        LineIntersection::Crosses { entrance, exit } => {
            assert_eq!((30, 1), parts(entrance.get_x()));
            assert_eq!((1960, 140), parts(entrance.get_y()));
            assert_eq!((100, 1), parts(exit.get_x()));
            assert_eq!((2240, 140), parts(exit.get_y()));
            assert!(at(entrance, (30, 1), (14, 1)));
            assert!(at(exit, (100, 1), (16, 1)));
        }
        other => panic!("unexpected outcome {:?}", other),
    }
}

#[test]
fn short_horizontal_segment_inside_is_fully_inside() {
    let rect = RectangularDrawnRegion::new(1, 5, 5, 7);
    assert_eq!(
        LineIntersection::FullyInside,
        rect.find_line_intersection(Point::new(3, 6), Point::new(4, 6))
    );
}

#[test]
fn horizontal_segment_below_is_fully_outside() {
    let rect = RectangularDrawnRegion::new(0, 3, 5, 10);
    assert_eq!(
        LineIntersection::FullyOutside,
        rect.find_line_intersection(Point::new(-5, 2), Point::new(10, 2))
    );
}

#[test]
fn fractional_crossing_point_is_exact() {
    let rect = RectangularDrawnRegion::new(30, 10, 100, 20);
    let found = rect.find_line_intersection(Point::new(15, 17), Point::new(115, 21));
    match found {
        LineIntersection::Crosses { entrance, exit } => {
            // 17.6 is 88 / 5
            assert!(at(entrance, (30, 1), (88, 5)));
            assert!(at(exit, (90, 1), (20, 1)));
            assert_eq!((20, 1), parts(exit.get_y()));
        }
        other => panic!("unexpected outcome {:?}", other),
    }
}

#[test]
fn steep_segment_enters_through_the_side_it_comes_from() {
    let rect = RectangularDrawnRegion::new(0, 0, 10, 10);
    let outside = Point::new(-2, 11);
    let inside = Point::new(1, 5);
    match rect.find_line_intersection(outside, inside) {
        LineIntersection::Enters { point } => {
            assert_eq!((0, 1), parts(point.get_x()));
            assert_eq!((21, 3), parts(point.get_y()));
        }
        other => panic!("unexpected outcome {:?}", other),
    }
    match rect.find_line_intersection(inside, outside) {
        LineIntersection::Exits { point } => {
            assert_eq!((0, 1), parts(point.get_x()));
            assert_eq!((21, 3), parts(point.get_y()));
        }
        other => panic!("unexpected outcome {:?}", other),
    }

    let outside = Point::new(13, -3);
    let inside = Point::new(9, 5);
    match rect.find_line_intersection(outside, inside) {
        LineIntersection::Enters { point } => assert!(at(point, (10, 1), (3, 1))),
        other => panic!("unexpected outcome {:?}", other),
    }
}

#[test]
fn diagonal_through_a_corner_leaves_on_the_vertical_side() {
    let rect = RectangularDrawnRegion::new(0, 0, 10, 10);
    match rect.find_line_intersection(Point::new(5, 5), Point::new(15, 15)) {
        LineIntersection::Exits { point } => {
            assert_eq!((10, 1), parts(point.get_x()));
            assert_eq!((100, 10), parts(point.get_y()));
        }
        other => panic!("unexpected outcome {:?}", other),
    }
}

#[test]
fn segment_touching_a_corner_crosses_in_one_point() {
    let rect = RectangularDrawnRegion::new(0, 0, 10, 10);
    match rect.find_line_intersection(Point::new(-5, 5), Point::new(5, 15)) {
        LineIntersection::Crosses { entrance, exit } => {
            assert!(at(entrance, (0, 1), (10, 1)));
            assert!(at(exit, (0, 1), (10, 1)));
        }
        other => panic!("unexpected outcome {:?}", other),
    }
}

#[test]
fn segment_passing_a_corner_is_fully_outside() {
    let rect = RectangularDrawnRegion::new(0, 0, 10, 10);
    assert_eq!(
        LineIntersection::FullyOutside,
        rect.find_line_intersection(Point::new(-4, 8), Point::new(2, 14))
    );
    assert_eq!(
        LineIntersection::FullyOutside,
        rect.find_line_intersection(Point::new(2, 14), Point::new(-4, 8))
    );
}

#[test]
fn segment_of_length_zero_is_inside_or_outside() {
    let rect = RectangularDrawnRegion::new(0, 0, 10, 10);
    let inside = Point::new(10, 0);
    let outside = Point::new(11, 0);
    assert_eq!(LineIntersection::FullyInside, rect.find_line_intersection(inside, inside));
    assert_eq!(LineIntersection::FullyOutside, rect.find_line_intersection(outside, outside));
}

#[test]
fn degenerate_rectangle_contains_no_point() {
    let rect = RectangularDrawnRegion::new(1, 1, -1, -1);
    for x in -3..4 {
        for y in -3..4 {
            assert!(!rect.is_inside(Point::new(x, y)));
        }
    }
    assert!(!rect.is_inside(Point::new(1, 1)));
    assert!(!rect.is_inside(Point::new(-1, -1)));
    let narrow = RectangularDrawnRegion::new(5, 0, 3, 10);
    assert!(!narrow.is_inside(Point::new(4, 5)));
    assert!(!narrow.is_inside(Point::new(5, 5)));
    assert!(!narrow.is_inside(Point::new(3, 5)));
}

#[test]
fn degenerate_rectangle_is_fully_outside_of_every_segment() {
    let lio = LineIntersection::FullyOutside;
    let narrow = RectangularDrawnRegion::new(5, 0, 3, 10);
    assert_eq!(lio, narrow.find_line_intersection(Point::new(0, 5), Point::new(10, 5)));
    assert_eq!(lio, narrow.find_line_intersection(Point::new(10, 5), Point::new(0, 5)));
    assert_eq!(lio, narrow.find_line_intersection(Point::new(0, 5), Point::new(2, 5)));
    assert_eq!(lio, narrow.find_line_intersection(Point::new(4, 5), Point::new(4, 5)));
    assert_eq!(lio, narrow.find_line_intersection(Point::new(4, 5), Point::new(4, 6)));

    let inverted = RectangularDrawnRegion::new(1, 1, -1, -1);
    assert_eq!(lio, inverted.find_line_intersection(Point::new(-5, -5), Point::new(5, 5)));
    assert_eq!(lio, inverted.find_line_intersection(Point::new(5, 5), Point::new(-5, -5)));
    assert_eq!(lio, inverted.find_line_intersection(Point::new(0, 0), Point::new(0, 0)));
    assert_eq!(lio, inverted.find_line_intersection(Point::new(1, 1), Point::new(-1, -1)));

    let flat = RectangularDrawnRegion::new(0, 6, 10, 0);
    for rect in [narrow, inverted, flat] {
        for from in sample_points() {
            for to in sample_points() {
                assert_eq!(lio, rect.find_line_intersection(from, to), "{:?} {:?}", from, to);
            }
        }
    }
}

#[test]
fn rectangle_without_width_or_height_is_proper() {
    let line = RectangularDrawnRegion::new(5, 0, 5, 10);
    assert!(line.is_inside(Point::new(5, 3)));
    match line.find_line_intersection(Point::new(0, 5), Point::new(10, 5)) {
        LineIntersection::Crosses { entrance, exit } => {
            assert!(at(entrance, (5, 1), (5, 1)));
            assert!(at(exit, (5, 1), (5, 1)));
        }
        other => panic!("unexpected outcome {:?}", other),
    }
    let spot = RectangularDrawnRegion::new(5, 5, 5, 5);
    assert_eq!(
        LineIntersection::FullyInside,
        spot.find_line_intersection(Point::new(5, 5), Point::new(5, 5))
    );
    match spot.find_line_intersection(Point::new(5, 5), Point::new(9, 7)) {
        LineIntersection::Exits { point } => assert!(at(point, (5, 1), (5, 1))),
        other => panic!("unexpected outcome {:?}", other),
    }
}

#[test]
fn points_on_the_sides_are_inside() {
    let rect = RectangularDrawnRegion::new(-2, -4, 6, 10);
    for y in -4..11 {
        assert!(rect.is_inside(Point::new(-2, y)));
        assert!(rect.is_inside(Point::new(6, y)));
    }
    for x in -2..7 {
        assert!(rect.is_inside(Point::new(x, -4)));
        assert!(rect.is_inside(Point::new(x, 10)));
    }
    assert!(!rect.is_inside(Point::new(-3, 0)));
    assert!(!rect.is_inside(Point::new(7, 0)));
    assert!(!rect.is_inside(Point::new(0, -5)));
    assert!(!rect.is_inside(Point::new(0, 11)));
}

#[test]
fn inside_points_are_within_the_reported_bounds() {
    let rect = RectangularDrawnRegion::new(0, 0, 10, 6);
    for point in sample_points() {
        if rect.is_inside(point) {
            assert!(rect.get_left() <= point.get_x() && point.get_x() <= rect.get_right());
            assert!(rect.get_bottom() <= point.get_y() && point.get_y() <= rect.get_top());
        }
    }
}

#[test]
fn outcome_fits_where_the_ends_lie() {
    let rect = RectangularDrawnRegion::new(0, 0, 10, 6);
    for from in sample_points() {
        for to in sample_points() {
            let found = rect.find_line_intersection(from, to);
            match (rect.is_inside(from), rect.is_inside(to)) {
                (true, true) => assert_eq!(LineIntersection::FullyInside, found),
                (true, false) => assert!(matches!(found, LineIntersection::Exits { .. })),
                (false, true) => assert!(matches!(found, LineIntersection::Enters { .. })),
                (false, false) => assert!(matches!(
                    found,
                    LineIntersection::FullyOutside | LineIntersection::Crosses { .. }
                )),
            }
        }
    }
}

fn on_boundary(rect: &RectangularDrawnRegion, point: BoundaryPoint) -> bool {
    let (xn, xd) = (point.get_x().numerator(), point.get_x().denominator() as i128);
    let (yn, yd) = (point.get_y().numerator(), point.get_y().denominator() as i128);
    let (left, right) = (rect.get_left() as i128, rect.get_right() as i128);
    let (bottom, top) = (rect.get_bottom() as i128, rect.get_top() as i128);
    let held = left * xd <= xn && xn <= right * xd && bottom * yd <= yn && yn <= top * yd;
    let on_side = xn == left * xd || xn == right * xd || yn == bottom * yd || yn == top * yd;
    held && on_side
}

fn on_segment(from: Point, to: Point, point: BoundaryPoint) -> bool {
    let (xn, xd) = (point.get_x().numerator(), point.get_x().denominator() as i128);
    let (yn, yd) = (point.get_y().numerator(), point.get_y().denominator() as i128);
    let (fx, fy) = (from.get_x() as i128, from.get_y() as i128);
    let (tx, ty) = (to.get_x() as i128, to.get_y() as i128);
    let on_line = (tx - fx) * (yn - fy * yd) * xd == (ty - fy) * (xn - fx * xd) * yd;
    let between_x = fx.min(tx) * xd <= xn && xn <= fx.max(tx) * xd;
    let between_y = fy.min(ty) * yd <= yn && yn <= fy.max(ty) * yd;
    on_line && between_x && between_y
}

#[test]
fn found_points_lie_on_a_side_and_on_the_segment() {
    let rect = RectangularDrawnRegion::new(0, 0, 10, 6);
    for from in sample_points() {
        for to in sample_points() {
            match rect.find_line_intersection(from, to) {
                LineIntersection::Enters { point } | LineIntersection::Exits { point } => {
                    assert!(on_boundary(&rect, point), "{:?} {:?}", from, to);
                    assert!(on_segment(from, to, point), "{:?} {:?}", from, to);
                }
                LineIntersection::Crosses { entrance, exit } => {
                    assert!(on_boundary(&rect, entrance), "{:?} {:?}", from, to);
                    assert!(on_segment(from, to, entrance), "{:?} {:?}", from, to);
                    assert!(on_boundary(&rect, exit), "{:?} {:?}", from, to);
                    assert!(on_segment(from, to, exit), "{:?} {:?}", from, to);
                }
                _ => {}
            }
        }
    }
}

#[test]
fn reversing_a_segment_swaps_entering_and_leaving() {
    let proper = RectangularDrawnRegion::new(0, 0, 10, 6);
    let degenerate = RectangularDrawnRegion::new(10, 6, 0, 0);
    let half = RectangularDrawnRegion::new(10, 0, 0, 6);
    for rect in [proper, degenerate, half] {
        for from in sample_points() {
            for to in sample_points() {
                assert_eq!(
                    reversed(rect.find_line_intersection(from, to)),
                    rect.find_line_intersection(to, from),
                    "{:?} {:?}",
                    from,
                    to
                );
            }
        }
    }
}

#[test]
fn widest_rectangle_has_its_width_and_height() {
    let rect = RectangularDrawnRegion::new(i32::MIN, i32::MIN, i32::MAX, i32::MAX);
    assert_eq!(4294967295, rect.get_width());
    assert_eq!(4294967295, rect.get_height());
    let rect = RectangularDrawnRegion::new(3, 8, 10, 15);
    assert_eq!(7, rect.get_width());
    assert_eq!(7, rect.get_height());
    let rect = RectangularDrawnRegion::new(10, 15, 3, 9);
    assert_eq!(-7, rect.get_width());
    assert_eq!(-6, rect.get_height());
    assert!(rect.can_clip_lines());
}

#[test]
fn far_apart_ends_do_not_overflow() {
    let rect = RectangularDrawnRegion::new(-10, -10, 10, 10);
    let from = Point::new(i32::MIN, i32::MIN);
    let to = Point::new(i32::MAX, i32::MAX);
    match rect.find_line_intersection(from, to) {
        LineIntersection::Crosses { entrance, exit } => {
            assert!(at(entrance, (-10, 1), (-10, 1)));
            assert!(at(exit, (10, 1), (10, 1)));
        }
        other => panic!("unexpected outcome {:?}", other),
    }
    let rect = RectangularDrawnRegion::new(i32::MIN, i32::MIN, i32::MAX, i32::MAX - 1);
    match rect.find_line_intersection(Point::new(i32::MIN, i32::MIN), Point::new(i32::MAX, i32::MAX)) {
        LineIntersection::Exits { point } => {
            assert!(at(point, (i32::MAX as i128 - 1, 1), (i32::MAX as i128 - 1, 1)));
        }
        other => panic!("unexpected outcome {:?}", other),
    }
}

#[test]
fn copy_of_a_rectangle_is_the_same_rectangle() {
    let rect = RectangularDrawnRegion::new(3, 8, 10, 15);
    let copy = DrawnRegion::clone(&rect);
    assert_eq!(rect, copy);
    assert_eq!(
        rect.find_line_intersection(Point::new(0, 0), Point::new(20, 20)),
        copy.find_line_intersection(Point::new(0, 0), Point::new(20, 20))
    );
}

#[test]
fn fraction_needs_a_positive_denominator() {
    assert!(Fraction::new(1, 0).is_none());
    assert!(Fraction::new(3, -2).is_none());
    let fraction = Fraction::new(-3, 2).unwrap();
    assert_eq!((-3, 2), parts(fraction));
    assert!(fraction.at_least(-2));
    assert!(!fraction.at_least(-1));
    assert!(fraction.at_most(-1));
    assert!(!fraction.at_most(-2));
    assert!(fraction.within(-2, -1));
    assert!(!fraction.within(-1, 0));
    assert_eq!((7, 1), parts(Fraction::whole(7)));
    assert!(Fraction::whole(7).within(7, 7));
}

#[test]
fn transposing_swaps_the_coordinates() {
    assert_eq!(Point::new(2, 1), Point::new(1, 2).transpose());
    assert_eq!(
        RectangularDrawnRegion::new(2, 1, 4, 3),
        RectangularDrawnRegion::new(1, 2, 3, 4).transpose()
    );
    let point = BoundaryPoint::new(Fraction::whole(1), Fraction::whole(2));
    assert_eq!(BoundaryPoint::new(Fraction::whole(2), Fraction::whole(1)), point.transpose());
    assert_eq!(
        LineIntersection::Crosses { entrance: point.transpose(), exit: point },
        LineIntersection::Crosses { entrance: point, exit: point.transpose() }.transpose()
    );
}

#[test]
fn vertical_side_is_met_at_the_height_of_the_line() {
    let found = find_vertical_line_intersection(5, 0, 10, Point::new(0, 0), Point::new(10, 10));
    let point = found.unwrap();
    assert_eq!((5, 1), parts(point.get_x()));
    assert_eq!((50, 10), parts(point.get_y()));

    // The line passes above the upper end of the side.
    assert!(find_vertical_line_intersection(5, 0, 4, Point::new(0, 0), Point::new(10, 10)).is_none());
    // Both ends are to the left of the side.
    assert!(find_vertical_line_intersection(5, 0, 10, Point::new(0, 0), Point::new(4, 4)).is_none());
    // Both ends are above the side.
    assert!(find_vertical_line_intersection(5, 0, 10, Point::new(0, 11), Point::new(9, 12)).is_none());
}

#[test]
fn steep_segment_meets_a_vertical_side() {
    let found = find_vertical_line_intersection(5, 0, 10, Point::new(4, 0), Point::new(6, 10));
    assert!(at(found.unwrap(), (5, 1), (5, 1)));
    assert!(find_vertical_line_intersection(5, 0, 10, Point::new(0, 0), Point::new(4, 10)).is_none());
}

#[test]
fn segment_along_a_vertical_side_meets_it_where_the_overlap_starts() {
    let up = find_vertical_line_intersection(5, 3, 10, Point::new(5, 2), Point::new(5, 8));
    assert!(at(up.unwrap(), (5, 1), (3, 1)));
    let up_from_within = find_vertical_line_intersection(5, 3, 10, Point::new(5, 4), Point::new(5, 12));
    assert!(at(up_from_within.unwrap(), (5, 1), (4, 1)));
    let down = find_vertical_line_intersection(5, 3, 10, Point::new(5, 12), Point::new(5, 2));
    assert!(at(down.unwrap(), (5, 1), (10, 1)));
    let down_from_within = find_vertical_line_intersection(5, 3, 10, Point::new(5, 8), Point::new(5, 2));
    assert!(at(down_from_within.unwrap(), (5, 1), (8, 1)));
}

#[test]
fn segment_of_length_zero_meets_a_side_in_its_one_point() {
    let spot = Point::new(5, 5);
    let upright = find_vertical_line_intersection(5, 0, 10, spot, spot).unwrap();
    assert_eq!((5, 1), parts(upright.get_x()));
    assert_eq!((5, 1), parts(upright.get_y()));
    let level = find_horizontal_line_intersection(5, 0, 10, spot, spot).unwrap();
    assert_eq!((5, 1), parts(level.get_x()));
    assert_eq!((5, 1), parts(level.get_y()));

    let end = Point::new(5, 10);
    assert!(at(find_vertical_line_intersection(5, 0, 10, end, end).unwrap(), (5, 1), (10, 1)));
    let end = Point::new(10, 5);
    assert!(at(find_horizontal_line_intersection(5, 0, 10, end, end).unwrap(), (10, 1), (5, 1)));

    // Beside the line, and on the line beyond the end of the side.
    let beside = Point::new(4, 5);
    assert!(find_vertical_line_intersection(5, 0, 10, beside, beside).is_none());
    let beyond = Point::new(5, 11);
    assert!(find_vertical_line_intersection(5, 0, 10, beyond, beyond).is_none());
    let beside = Point::new(5, 4);
    assert!(find_horizontal_line_intersection(5, 0, 10, beside, beside).is_none());
    let beyond = Point::new(11, 5);
    assert!(find_horizontal_line_intersection(5, 0, 10, beyond, beyond).is_none());
}

#[test]
fn side_with_its_ends_the_wrong_way_round_is_met_by_nothing() {
    for from in sample_points() {
        for to in sample_points() {
            assert!(find_vertical_line_intersection(5, 6, 0, from, to).is_none());
            assert!(find_horizontal_line_intersection(5, 6, 0, from, to).is_none());
        }
    }
    let spot = Point::new(5, 3);
    assert!(find_vertical_line_intersection(5, 3, 3, spot, spot).is_some());
    assert!(find_vertical_line_intersection(5, 4, 3, spot, spot).is_none());
    let across = find_vertical_line_intersection(5, 3, 3, Point::new(4, 2), Point::new(6, 4));
    assert!(at(across.unwrap(), (5, 1), (3, 1)));
}

#[test]
fn horizontal_side_is_met_at_the_position_of_the_line() {
    let found = find_horizontal_line_intersection(5, 0, 10, Point::new(8, 10), Point::new(12, 0));
    let point = found.unwrap();
    assert_eq!((100, 10), parts(point.get_x()));
    assert_eq!((5, 1), parts(point.get_y()));

    let flat = find_horizontal_line_intersection(5, 0, 10, Point::new(0, 4), Point::new(10, 6));
    assert!(at(flat.unwrap(), (5, 1), (5, 1)));

    assert!(find_horizontal_line_intersection(5, 0, 10, Point::new(0, 0), Point::new(10, 4)).is_none());
    assert!(find_horizontal_line_intersection(5, 0, 10, Point::new(-4, 0), Point::new(-1, 9)).is_none());
}

#[test]
fn horizontal_side_is_met_from_beyond_either_end() {
    let from_the_right =
        find_horizontal_line_intersection(5, 0, 10, Point::new(12, 8), Point::new(6, 2));
    let point = from_the_right.unwrap();
    assert_eq!((54, 6), parts(point.get_x()));
    assert_eq!((5, 1), parts(point.get_y()));
    assert!(at(point, (9, 1), (5, 1)));
    let back = find_horizontal_line_intersection(5, 0, 10, Point::new(6, 2), Point::new(12, 8));
    assert!(at(back.unwrap(), (9, 1), (5, 1)));

    let steep = find_horizontal_line_intersection(5, 0, 10, Point::new(12, 0), Point::new(8, 10));
    assert!(at(steep.unwrap(), (10, 1), (5, 1)));
    let along = find_horizontal_line_intersection(5, 0, 10, Point::new(11, 5), Point::new(3, 5));
    assert!(at(along.unwrap(), (10, 1), (5, 1)));
    let from_the_left =
        find_horizontal_line_intersection(5, 0, 10, Point::new(-2, 8), Point::new(4, 2));
    assert!(at(from_the_left.unwrap(), (1, 1), (5, 1)));

    // Both ends are to the right of the side.
    assert!(find_horizontal_line_intersection(5, 0, 10, Point::new(12, 8), Point::new(11, 2))
        .is_none());
}

#[test]
fn segment_along_a_horizontal_side_meets_it_where_the_overlap_starts() {
    let right = find_horizontal_line_intersection(5, 3, 10, Point::new(2, 5), Point::new(8, 5));
    assert!(at(right.unwrap(), (3, 1), (5, 1)));
    let left = find_horizontal_line_intersection(5, 3, 10, Point::new(8, 5), Point::new(2, 5));
    assert!(at(left.unwrap(), (8, 1), (5, 1)));
}

/// The point a `part / parts` of the way from `from` to `to`, as numerators
/// over the common denominator `parts`.
fn along(from: Point, to: Point, part: i128, parts: i128) -> (i128, i128) {
    let (fx, fy) = (from.get_x() as i128, from.get_y() as i128);
    let (tx, ty) = (to.get_x() as i128, to.get_y() as i128);
    (fx * parts + (tx - fx) * part, fy * parts + (ty - fy) * part)
}

fn held(rect: &RectangularDrawnRegion, point: (i128, i128), parts: i128) -> bool {
    let (left, right) = (rect.get_left() as i128, rect.get_right() as i128);
    let (bottom, top) = (rect.get_bottom() as i128, rect.get_top() as i128);
    left * parts <= point.0
        && point.0 <= right * parts
        && bottom * parts <= point.1
        && point.1 <= top * parts
}

/// Whether `later` does not come before `earlier` on the way from `from` to
/// `to`; each point is given by its two numerators and two denominators.
fn not_before(
    from: Point,
    to: Point,
    earlier: ((i128, i128), (i128, i128)),
    later: ((i128, i128), (i128, i128)),
) -> bool {
    let across = to.get_x() as i128 - from.get_x() as i128;
    let height = to.get_y() as i128 - from.get_y() as i128;
    let ((ex, exd), (ey, eyd)) = earlier;
    let ((lx, lxd), (ly, lyd)) = later;
    (lx * exd - ex * lxd) * across >= 0 && (ly * eyd - ey * lyd) * height >= 0
}

fn exact(point: Point) -> ((i128, i128), (i128, i128)) {
    ((point.get_x() as i128, 1), (point.get_y() as i128, 1))
}

fn place(point: BoundaryPoint) -> ((i128, i128), (i128, i128)) {
    (
        (point.get_x().numerator(), point.get_x().denominator() as i128),
        (point.get_y().numerator(), point.get_y().denominator() as i128),
    )
}

#[test]
fn outcome_tells_which_points_of_the_segment_are_inside() {
    let rect = RectangularDrawnRegion::new(0, 0, 10, 6);
    let parts = 12;
    for from in sample_points() {
        for to in sample_points() {
            let ends = match rect.find_line_intersection(from, to) {
                LineIntersection::FullyInside => Some((exact(from), exact(to))),
                LineIntersection::FullyOutside => None,
                LineIntersection::Enters { point } => Some((place(point), exact(to))),
                LineIntersection::Exits { point } => Some((exact(from), place(point))),
                LineIntersection::Crosses { entrance, exit } => {
                    Some((place(entrance), place(exit)))
                }
            };
            for part in 0..=parts {
                let point = along(from, to, part, parts);
                let here = ((point.0, parts), (point.1, parts));
                let expected = match ends {
                    Some((first, last)) => {
                        not_before(from, to, first, here) && not_before(from, to, here, last)
                    }
                    None => false,
                };
                assert_eq!(expected, held(&rect, point, parts), "{:?} {:?} {}", from, to, part);
            }
        }
    }
}

#[test]
fn entrance_comes_before_exit() {
    let rect = RectangularDrawnRegion::new(0, 0, 10, 6);
    let mut crossings = 0;
    for from in sample_points() {
        for to in sample_points() {
            if let LineIntersection::Crosses { entrance, exit } =
                rect.find_line_intersection(from, to)
            {
                crossings += 1;
                assert!(not_before(from, to, place(entrance), place(exit)), "{:?} {:?}", from, to);
            }
        }
    }
    assert!(crossings > 100);
}

#[test]
fn fully_outside_segment_has_no_point_inside_a_degenerate_rectangle_either() {
    let rect = RectangularDrawnRegion::new(10, 0, 0, 6);
    let parts = 12;
    for from in sample_points() {
        for to in sample_points() {
            for part in 0..=parts {
                assert!(!held(&rect, along(from, to, part, parts), parts));
            }
        }
    }
}

#[test]
fn meeting_points_lie_on_the_side_and_on_the_segment() {
    let (at, lo, hi) = (5, 0, 6);
    let mut met = 0;
    for from in sample_points() {
        for to in sample_points() {
            if let Some(point) = find_vertical_line_intersection(at, lo, hi, from, to) {
                met += 1;
                let (xn, xd) = (point.get_x().numerator(), point.get_x().denominator() as i128);
                let (yn, yd) = (point.get_y().numerator(), point.get_y().denominator() as i128);
                assert_eq!(at as i128 * xd, xn, "{:?} {:?}", from, to);
                assert!(lo as i128 * yd <= yn && yn <= hi as i128 * yd, "{:?} {:?}", from, to);
                assert!(on_segment(from, to, point), "{:?} {:?}", from, to);
            }
            if let Some(point) = find_horizontal_line_intersection(at, lo, hi, from, to) {
                met += 1;
                let (xn, xd) = (point.get_x().numerator(), point.get_x().denominator() as i128);
                let (yn, yd) = (point.get_y().numerator(), point.get_y().denominator() as i128);
                assert_eq!(at as i128 * yd, yn, "{:?} {:?}", from, to);
                assert!(lo as i128 * xd <= xn && xn <= hi as i128 * xd, "{:?} {:?}", from, to);
                assert!(on_segment(from, to, point), "{:?} {:?}", from, to);
            }
        }
    }
    assert!(met > 100);
}

/// Whether the segment has a point on the stretch of the vertical line at
/// `at` between `lo` and `hi`.
fn reaches_vertical_stretch(at: i128, lo: i128, hi: i128, from: Point, to: Point) -> bool {
    let (fx, fy) = (from.get_x() as i128, from.get_y() as i128);
    let (tx, ty) = (to.get_x() as i128, to.get_y() as i128);
    if fx == tx {
        fx == at && fy.min(ty) <= hi && fy.max(ty) >= lo
    } else if fx.min(tx) <= at && at <= fx.max(tx) {
        let width = (tx - fx).abs();
        let gone = if tx > fx { at - fx } else { fx - at };
        let height = fy * width + (ty - fy) * gone;
        lo * width <= height && height <= hi * width
    } else {
        false
    }
}

#[test]
fn segment_with_a_point_on_a_side_is_found_to_meet_it() {
    let (at, lo, hi) = (5, 0, 6);
    let mut met = 0;
    let mut missed = 0;
    for from in sample_points() {
        for to in sample_points() {
            let upright = reaches_vertical_stretch(at as i128, lo as i128, hi as i128, from, to);
            let found = find_vertical_line_intersection(at, lo, hi, from, to);
            assert_eq!(upright, found.is_some(), "{:?} {:?}", from, to);
            let level = reaches_vertical_stretch(
                at as i128,
                lo as i128,
                hi as i128,
                from.transpose(),
                to.transpose(),
            );
            let found = find_horizontal_line_intersection(at, lo, hi, from, to);
            assert_eq!(level, found.is_some(), "{:?} {:?}", from, to);
            if upright || level {
                met += 1;
            } else {
                missed += 1;
            }
        }
    }
    assert!(met > 100);
    assert!(missed > 100);
}
