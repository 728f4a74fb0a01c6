use pi_estimation_channels::point::Point;
use pi_estimation_channels::point::COORDINATE_SCALE;

#[test]
fn centre_is_inside() {
    let p = Point::new(0, 0);
    assert!(p.inside_unit_circle());
}

#[test]
fn circle_boundary_is_inside() {
    // x^2 + y^2 == COORDINATE_SCALE^2 exactly.
    let p = Point::new(COORDINATE_SCALE, 0);
    assert!(p.inside_unit_circle());
    let q = Point::new(0, -COORDINATE_SCALE);
    assert!(q.inside_unit_circle());
}

#[test]
fn square_corner_is_outside() {
    let p = Point::new(COORDINATE_SCALE, COORDINATE_SCALE);
    assert!(!p.inside_unit_circle());
    let q = Point::new(-COORDINATE_SCALE, -COORDINATE_SCALE);
    assert!(!q.inside_unit_circle());
}

#[test]
fn just_over_the_boundary_is_outside() {
    let p = Point::new(COORDINATE_SCALE, 1);
    assert!(!p.inside_unit_circle());
}

#[test]
fn default_point_is_the_centre() {
    let p = Point::default();
    assert_eq!(p, Point::new(0, 0));
}

#[test]
fn random_points_are_well_formed() {
    for _ in 0..1000 {
        let p = Point::random();
        assert!(-COORDINATE_SCALE <= p.x && p.x <= COORDINATE_SCALE);
        assert!(-COORDINATE_SCALE <= p.y && p.y <= COORDINATE_SCALE);
    }
}
