use shade::curve::create_curve;
use shade::math::Point2;

#[test]
fn curve_has_sixteen_points_per_segment() {
    let points = vec![
        Point2 { x: 0, y: 0 },
        Point2 { x: 65536, y: 0 },
        Point2 { x: 131072, y: 65536 },
        Point2 { x: 196608, y: 0 },
    ];
    let curve = create_curve(&points);
    assert_eq!(curve.len(), 16 * 3);
}

#[test]
fn curve_starts_at_the_first_control_point() {
    let points = vec![Point2 { x: 1000, y: -2000 }, Point2 { x: 50000, y: 30000 }];
    let curve = create_curve(&points);
    assert_eq!(curve[0], Point2 { x: 1000, y: -2000 });
}

#[test]
fn curve_segment_start_interpolates_the_control_point() {
    let points = vec![
        Point2 { x: 0, y: 0 },
        Point2 { x: 100, y: 200 },
        Point2 { x: 300, y: 400 },
    ];
    let curve = create_curve(&points);
    // the first point of each segment is exactly that segment's control point
    assert_eq!(curve[0], Point2 { x: 0, y: 0 });
    assert_eq!(curve[16], Point2 { x: 100, y: 200 });
}

#[test]
fn straight_segment_midpoint_is_halfway() {
    // two control points on the diagonal: the middle of the one segment is
    // the exact midpoint (the tangents of the duplicated endpoints cancel)
    let points = vec![Point2 { x: 0, y: 0 }, Point2 { x: 16384, y: 16384 }];
    let curve = create_curve(&points);
    assert_eq!(curve.len(), 16);
    assert_eq!(curve[8], Point2 { x: 8192, y: 8192 });
}

#[test]
fn single_control_point_yields_an_empty_curve() {
    let points = vec![Point2 { x: 5, y: 5 }];
    let curve = create_curve(&points);
    assert_eq!(curve.len(), 0);
}
