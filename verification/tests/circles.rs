use lib_plotings::circle::Circle;
use lib_plotings::vec2::Vec2;
use lib_plotings::ConfigError;

#[test]
fn test_overlapping() {
    let a = Circle::new(Vec2::new(0, 0), 1).unwrap();
    let b = Circle::new(Vec2::new(0, 0), 1).unwrap();

    assert!(a.overlaps(&b));

    let a = Circle::new(Vec2::new(10, 0), 1).unwrap();
    let b = Circle::new(Vec2::new(10, 10), 10).unwrap();

    assert!(a.overlaps(&b));
}

#[test]
fn test_not_overlapping() {
    let a = Circle::new(Vec2::new(0, 0), 1).unwrap();
    let b = Circle::new(Vec2::new(2, 2), 1).unwrap();

    assert!(!a.overlaps(&b));
}

#[test]
fn test_overlap_is_symmetric() {
    let a = Circle::new(Vec2::new(3, 4), 2).unwrap();
    let b = Circle::new(Vec2::new(5, 5), 1).unwrap();
    assert_eq!(a.overlaps(&b), b.overlaps(&a));

    let c = Circle::new(Vec2::new(100, 100), 5).unwrap();
    assert_eq!(a.overlaps(&c), c.overlaps(&a));
}

#[test]
fn test_zero_radius_rejected() {
    assert_eq!(Circle::new(Vec2::new(1, 2), 0), Err(ConfigError::ZeroRadius));
}

#[test]
fn test_apply_force_then_integrate() {
    // A circle at the origin, radius 1, at rest: one force of (2, 0) must
    // become velocity (2, 0), carry the circle to (2, 0), and drain the
    // accumulator.
    let mut c = Circle::new(Vec2::new(0, 0), 1).unwrap();
    c.apply_force(Vec2::new(2, 0));
    c.update();
    assert_eq!(c.velocity, Vec2::new(2, 0));
    assert_eq!(c.xy, Vec2::new(2, 0));
    assert_eq!(c.acceleration, Vec2::new(0, 0));
}

#[test]
fn test_zero_force_integration() {
    let mut c = Circle::new(Vec2::new(10, -20), 3).unwrap();
    c.velocity = Vec2::new(3, -4);
    c.update();
    assert_eq!(c.velocity, Vec2::new(3, -4));
    assert_eq!(c.xy, Vec2::new(13, -24));
    assert_eq!(c.acceleration, Vec2::new(0, 0));
}

#[test]
fn test_integration_is_linear_in_forces() {
    let mut split = Circle::new(Vec2::new(1, 1), 2).unwrap();
    split.velocity = Vec2::new(-1, 5);
    let mut joined = split;

    split.apply_force(Vec2::new(4, -7));
    split.apply_force(Vec2::new(-1, 2));
    split.update();

    joined.apply_force(Vec2::new(3, -5));
    joined.update();

    assert_eq!(split, joined);
}
