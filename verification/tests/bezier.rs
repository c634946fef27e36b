use oscilloscope::curve::{move_point, BezierCurve, BezierPoint, MESH_LEN, PARAM_ONE};
use oscilloscope::point::{Point, NORM_ONE};

#[test]
fn foo() {}

fn scenario_curve() -> BezierCurve {
    // origin (0,0) with handle (10,0), then origin (10,10) with handle (20,10)
    let mut c = BezierCurve::new();
    c.add_point(BezierPoint::symmetric(Point::new(0, 0), Point::new(10, 0)));
    c.add_point(BezierPoint::symmetric(Point::new(10, 10), Point::new(20, 10)));
    assert!(c.check_bounded());
    assert!(c.can_mesh());
    c
}

#[test]
fn point_arithmetic_is_exact() {
    let a = Point::new(1, 2);
    let b = Point::new(3, -4);
    assert_eq!(a.add(b), Point::new(4, -2));
    assert_eq!(a.sub(b), Point::new(-2, 6));
    assert_eq!(b.mul(-3), Point::new(-9, 12));
}

#[test]
fn rotation_convention_is_y_down() {
    // the coordinate system is screen-like (y grows downward)
    let unit = Point::new(1, 0);
    assert_eq!(unit.rotate_90_clockwise(), Point::new(0, -1));
    assert_eq!(unit.rotate_90_counter_clockwise(), Point::new(0, 1));
    let p = Point::new(3, 7);
    let twice = p.rotate_90_clockwise().rotate_90_clockwise();
    assert_eq!(twice, Point::new(-3, -7));
    assert_eq!(p.rotate_90_clockwise().rotate_90_counter_clockwise(), p);
}

#[test]
fn len_is_floor_of_euclidean_length() {
    assert_eq!(Point::new(3, 4).len(), 5);
    assert_eq!(Point::new(-3, 4).len(), 5);
    assert_eq!(Point::new(2, 3).len(), 3);
    assert_eq!(Point::new(0, 0).len(), 0);
    assert_eq!(Point::new(1, 0).len(), 1);
}

#[test]
fn norm_rescales_to_norm_one() {
    assert_eq!(Point::new(1, 0).norm(), Point::new(NORM_ONE, 0));
    assert_eq!(Point::new(0, -5).norm(), Point::new(0, -NORM_ONE));
    assert_eq!(Point::new(3, 4).norm(), Point::new(614, 819));
}

#[test]
fn zero_vector_norm_is_rejected() {
    // the zero vector is rejected deterministically, not silently mangled
    assert_eq!(Point::new(0, 0).try_norm(), None);
    assert_eq!(Point::new(5, 0).try_norm(), Some(Point::new(NORM_ONE, 0)));
}

#[test]
fn invalid_parameters_give_no_result() {
    let c = scenario_curve();
    assert_eq!(c.curve(-1), None);
    assert_eq!(c.curve(i64::MIN + 1), None);
    assert_eq!(c.derivative(-1), None);
    // one segment: the domain ends right before PARAM_ONE
    assert_eq!(c.curve(PARAM_ONE), None);
    assert_eq!(c.derivative(PARAM_ONE), None);
    assert_eq!(c.curve(10 * PARAM_ONE), None);

    let empty = BezierCurve::new();
    assert_eq!(empty.curve(0), None);
    let mut single = BezierCurve::new();
    single.add_point(BezierPoint::symmetric(Point::new(0, 0), Point::new(1, 0)));
    assert_eq!(single.curve(0), None);
    assert_eq!(single.derivative(0), None);
}

#[test]
fn curve_endpoint_scenario() {
    let c = scenario_curve();
    assert_eq!(c.curve(0), Some(Point::new(0, 0)));
    assert_eq!(c.curve(PARAM_ONE), None);
    // just before the end of the domain the curve is within a unit of the
    // second anchor (rounding toward zero trims the y coordinate)
    assert_eq!(c.curve(PARAM_ONE - 1), Some(Point::new(10, 9)));
}

#[test]
fn curve_passes_through_anchors() {
    let mut c = BezierCurve::new();
    c.add_point(BezierPoint::symmetric(Point::new(0, 0), Point::new(10, 0)));
    c.add_point(BezierPoint::symmetric(Point::new(10, 10), Point::new(20, 10)));
    c.add_point(BezierPoint::symmetric(Point::new(40, 0), Point::new(50, 0)));
    assert!(c.check_bounded());
    assert_eq!(c.curve(0), Some(Point::new(0, 0)));
    assert_eq!(c.curve(PARAM_ONE), Some(Point::new(10, 10)));
}

#[test]
fn derivative_values_are_exact() {
    let c = scenario_curve();
    assert_eq!(c.derivative(0), Some(Point::new(30, 0)));
    assert_eq!(c.derivative(512), Some(Point::new(15, 15)));
    assert_eq!(c.curve(512), Some(Point::new(12, 5)));
}

#[test]
fn mesh_yields_64_symmetric_pairs() {
    let c = scenario_curve();
    let pairs = c.mesh_points();
    assert_eq!(pairs.len(), MESH_LEN);
    for (i, (a, b)) in pairs.iter().enumerate() {
        let p = c.curve(i as i64 * 16).expect("sample in domain");
        // the two points straddle the curve point symmetrically
        assert_eq!(a.x - p.x, -(b.x - p.x));
        assert_eq!(a.y - p.y, -(b.y - p.y));
        let da = (a.x - p.x) * (a.x - p.x) + (a.y - p.y) * (a.y - p.y);
        let db = (b.x - p.x) * (b.x - p.x) + (b.y - p.y) * (b.y - p.y);
        assert_eq!(da, db);
        // the half-width is 15 units, up to integer rounding
        assert!(da <= 16 * 16);
        assert!(da >= 13 * 13);
    }
    assert_eq!(pairs[0], (Point::new(0, -15), Point::new(0, 15)));
}

#[test]
fn mesh_cursor_matches_collected_pairs() {
    let c = scenario_curve();
    let pairs = c.mesh_points();
    let mut cursor = c.mesh();
    let mut walked = Vec::new();
    while let Some(pair) = cursor.next() {
        walked.push(pair);
    }
    assert_eq!(walked, pairs);
    // a spent cursor stays spent
    assert_eq!(cursor.next(), None);
}

#[test]
fn mesh_is_deterministic_and_restartable() {
    let c = scenario_curve();
    let first = c.mesh_points();
    let second = c.mesh_points();
    assert_eq!(first, second);
    let mut m1 = c.mesh();
    let mut m2 = c.mesh();
    for _ in 0..MESH_LEN {
        assert_eq!(m1.next(), m2.next());
    }
    assert_eq!(m1.next(), None);
    assert_eq!(m2.next(), None);
}

#[test]
fn mesh_needs_a_direction_at_every_sample() {
    // coincident control points give a zero tangent everywhere
    let mut flat = BezierCurve::new();
    let p = BezierPoint::symmetric(Point::new(5, 5), Point::new(5, 5));
    flat.add_point(p);
    flat.add_point(p);
    assert!(flat.check_bounded());
    assert!(!flat.can_mesh());

    let mut short = BezierCurve::new();
    short.add_point(p);
    assert!(!short.can_mesh());
}

#[test]
fn move_point_shifts_one_feature() {
    let mut c = scenario_curve();
    move_point(1, &mut c, Point::new(0, -10));
    assert_eq!(c.get(0).unwrap().origin, Point::new(0, -10));
    assert_eq!(c.get(0).unwrap().handle_a, Point::new(10, 0));
    move_point(2, &mut c, Point::new(3, 0));
    assert_eq!(c.get(0).unwrap().handle_b, Point::new(13, 0));
    move_point(3, &mut c, Point::new(-1, -1));
    assert_eq!(c.get(1).unwrap().handle_a, Point::new(19, 9));
    move_point(4, &mut c, Point::new(5, 5));
    assert_eq!(c.get(1).unwrap().origin, Point::new(15, 15));
}

#[test]
fn indexed_and_bulk_access() {
    let mut c = scenario_curve();
    assert!(c.get(0).is_some());
    assert!(c.get(2).is_none());
    assert_eq!(c.as_slice().len(), 2);
    assert_eq!(c.as_slice()[1].origin, Point::new(10, 10));

    c.get_mut(0).origin = Point::new(1, 1);
    assert_eq!(c.get(0).unwrap().origin, Point::new(1, 1));
    c.as_mut_slice()[1].handle_a = Point::new(7, 7);
    assert_eq!(c.get(1).unwrap().handle_a, Point::new(7, 7));
}

#[test]
fn constructors_place_handles() {
    let sym = BezierPoint::symmetric(Point::new(2, 3), Point::new(5, 9));
    assert_eq!(sym.origin, Point::new(2, 3));
    assert_eq!(sym.handle_a, Point::new(5, 9));
    // origin + (handle_a - origin)
    assert_eq!(sym.handle_b, Point::new(5, 9));

    let tri = BezierPoint::new(Point::new(0, 0), Point::new(1, 0), Point::new(0, 2));
    assert_eq!(tri.handle_a, Point::new(1, 0));
    assert_eq!(tri.handle_b, Point::new(0, 2));
}

#[test]
fn bounds_are_checked_explicitly() {
    let mut c = scenario_curve();
    assert!(c.check_bounded());
    c.add_point(BezierPoint::symmetric(Point::new(2_000_000, 0), Point::new(0, 0)));
    assert!(!c.check_bounded());
}

#[test]
fn empty_curve_is_default() {
    let a = BezierCurve::new();
    let b = BezierCurve::default();
    assert_eq!(a.as_slice().len(), 0);
    assert_eq!(b.as_slice().len(), 0);
    assert_eq!(a.curve(0), None);
}
