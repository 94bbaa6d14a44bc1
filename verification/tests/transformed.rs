use knukki::{DrawnRegion, Point, RectangularDrawnRegion, TransformedDrawnRegion};

/// Grid units per unit of the coordinates written in these tests.
const SCALE: f64 = 100.0;

fn grid(value: f64) -> i32 {
    (value * SCALE).round() as i32
}

fn point(x: f64, y: f64) -> Point {
    Point::new(grid(x), grid(y))
}

#[test]
fn basic_test() {
    let wrapped_region =
        RectangularDrawnRegion::new(grid(1.0), grid(4.0), grid(2.0), grid(7.0));
    let region = TransformedDrawnRegion::new(
        wrapped_region,
        |point: Point| Point::new(point.get_x() * 3, point.get_y() - grid(1.0)),
        grid(1.0 / 3.0),
        grid(5.0),
        grid(2.0 / 3.0),
        grid(8.0),
    );
    assert!(!region.is_inside(point(0.3, 4.5)));
    assert!(!region.is_inside(point(0.4, 4.5)));
    assert!(region.is_inside(point(0.4, 5.5)));
    assert!(region.is_inside(point(0.65, 7.5)));
    assert!(!region.is_inside(point(0.7, 7.5)));
    assert!(!region.is_inside(point(0.7, 8.5)));
}

#[test]
fn transformed_region_reports_the_bounds_it_was_given() {
    let region = TransformedDrawnRegion::new(
        RectangularDrawnRegion::new(0, 0, 10, 10),
        |point: Point| Point::new(point.get_x() - 5, point.get_y()),
        5,
        0,
        15,
        10,
    );
    assert_eq!(5, region.get_left());
    assert_eq!(0, region.get_bottom());
    assert_eq!(15, region.get_right());
    assert_eq!(10, region.get_top());
    assert_eq!(10, region.get_width());
    assert_eq!(10, region.get_height());
    assert!(!region.can_clip_lines());
}

#[test]
fn transformed_region_copy_answers_alike() {
    let region = TransformedDrawnRegion::new(
        RectangularDrawnRegion::new(0, 0, 10, 10),
        |point: Point| Point::new(point.get_x() - 5, point.get_y()),
        5,
        0,
        15,
        10,
    );
    let copy = DrawnRegion::clone(&region);
    for x in 0..20 {
        for y in -3..13 {
            let p = Point::new(x, y);
            assert_eq!(region.is_inside(p), copy.is_inside(p));
        }
    }
    assert!(copy.is_inside(Point::new(5, 0)));
    assert!(copy.is_inside(Point::new(15, 10)));
    assert!(!copy.is_inside(Point::new(4, 5)));
    assert_eq!(region.get_left(), copy.get_left());
    assert_eq!(region.get_top(), copy.get_top());
}
