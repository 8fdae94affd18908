use delaunay_mesh::geometry::Point;

fn pt(x: i64, y: i64) -> Point {
    Point { x, y }
}

#[test]
fn is_ccw_counter_clockwise_turn() {
    assert!(Point::is_ccw(&pt(0, 0), &pt(10, 0), &pt(0, 10)));
}

#[test]
fn is_ccw_clockwise_turn_is_false() {
    assert!(!Point::is_ccw(&pt(0, 0), &pt(0, 10), &pt(10, 0)));
}

#[test]
fn is_ccw_collinear_is_false() {
    assert!(!Point::is_ccw(&pt(0, 0), &pt(5, 5), &pt(10, 10)));
    assert!(!Point::is_ccw(&pt(0, 0), &pt(5, 5), &pt(5, 5)));
}

#[test]
fn distance_squared_exact_value() {
    assert_eq!(pt(1, 2).distance_squared(&pt(4, 6)), 25);
    assert_eq!(pt(-3, 0).distance_squared(&pt(0, 4)), 25);
    assert_eq!(pt(7, 7).distance_squared(&pt(7, 7)), 0);
}

#[test]
fn in_circle_strictly_inside() {
    // circle through (0,0), (2,0), (0,2) has center (1,1), radius^2 = 2
    assert!(pt(1, 1).in_circle(&pt(0, 0), &pt(2, 0), &pt(0, 2)));
}

#[test]
fn in_circle_on_boundary_is_false() {
    assert!(!pt(2, 2).in_circle(&pt(0, 0), &pt(2, 0), &pt(0, 2)));
}

#[test]
fn in_circle_outside_is_false() {
    assert!(!pt(3, 3).in_circle(&pt(0, 0), &pt(2, 0), &pt(0, 2)));
    assert!(!pt(-5, -5).in_circle(&pt(0, 0), &pt(2, 0), &pt(0, 2)));
}

#[test]
fn circumcenter_exact_rational() {
    // circumcenter of (0,0), (2,0), (0,2) is (1,1): (8/8, 8/8)
    let c = Point::circumcenter(&pt(0, 0), &pt(2, 0), &pt(0, 2));
    assert_eq!(c, Some((8, 8, 8)));
}

#[test]
fn circumcenter_collinear_is_none() {
    assert_eq!(Point::circumcenter(&pt(0, 0), &pt(1, 1), &pt(2, 2)), None);
}

#[test]
fn square_circumradius_exact_rational() {
    // squared circumradius of (0,0), (2,0), (0,2) is 2 = 128/64
    let r = Point::square_circumradius(&pt(0, 0), &pt(2, 0), &pt(0, 2));
    assert_eq!(r, Some((128, 64)));
}

#[test]
fn square_circumradius_collinear_is_none() {
    assert_eq!(Point::square_circumradius(&pt(0, 0), &pt(3, 0), &pt(6, 0)), None);
}

#[test]
fn circumdelta_reports_offset_numerators() {
    // offset of the circumcenter from p0 = (0,0) is (1,1) = (8/8, 8/8)
    assert_eq!(Point::circumdelta(&pt(0, 0), &pt(2, 0), &pt(0, 2)), Some((8, 8, 8)));
}
