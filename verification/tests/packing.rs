use lib_plotings::circle::Circle;
use lib_plotings::packer::{check_borders, get_separation_force, Packer};
use lib_plotings::vec2::Vec2;
use lib_plotings::ConfigError;

fn circle_at(x: i64, y: i64, radius: i64) -> Circle {
    Circle::new(Vec2::new(x, y), radius).unwrap()
}

fn dist_sq(a: &Circle, b: &Circle) -> i64 {
    let dx = a.xy.x - b.xy.x;
    let dy = a.xy.y - b.xy.y;
    dx * dx + dy * dy
}

#[test]
fn test_border_reflection_right_edge() {
    // Width 100: the right edge sits at 50. A circle at x = 60 with radius
    // 10 has x - radius/2 = 55 beyond it, so velocity.x flips sign.
    let mut c = circle_at(60, 0, 10);
    c.velocity = Vec2::new(5, 3);
    let mut circles = vec![c];
    check_borders(0, &mut circles, 100, 100);
    assert_eq!(circles[0].velocity, Vec2::new(-5, 3));
}

#[test]
fn test_border_reflection_left_edge() {
    let mut c = circle_at(-60, 0, 10);
    c.velocity = Vec2::new(-5, 3);
    let mut circles = vec![c];
    check_borders(0, &mut circles, 100, 100);
    assert_eq!(circles[0].velocity, Vec2::new(5, 3));
}

#[test]
fn test_border_reflection_top_edge() {
    let mut c = circle_at(0, 60, 10);
    c.velocity = Vec2::new(5, 3);
    let mut circles = vec![c];
    check_borders(0, &mut circles, 100, 100);
    assert_eq!(circles[0].velocity, Vec2::new(5, -3));
}

#[test]
fn test_border_reflection_bottom_edge() {
    let mut c = circle_at(0, -60, 10);
    c.velocity = Vec2::new(5, -3);
    let mut circles = vec![c];
    check_borders(0, &mut circles, 100, 100);
    assert_eq!(circles[0].velocity, Vec2::new(5, 3));
}

#[test]
fn test_border_reflection_inside_unchanged() {
    let mut c = circle_at(0, 0, 10);
    c.velocity = Vec2::new(5, 3);
    let mut circles = vec![c];
    check_borders(0, &mut circles, 100, 100);
    assert_eq!(circles[0].velocity, Vec2::new(5, 3));
    assert_eq!(circles[0].xy, Vec2::new(0, 0));
}

#[test]
fn test_separation_force_zero_for_coincident_centers() {
    let a = circle_at(7, 7, 100);
    let b = circle_at(7, 7, 100);
    assert_eq!(get_separation_force(&a, &b), Vec2::new(0, 0));
}

#[test]
fn test_separation_force_zero_at_half_radii_sum() {
    // Center distance 10 equals radius_a/2 + radius_b/2, the edge of the
    // active zone: no force.
    let a = circle_at(10, 0, 10);
    let b = circle_at(0, 0, 10);
    assert_eq!(get_separation_force(&a, &b), Vec2::new(0, 0));

    // Far apart: no force either.
    let c = circle_at(1000, 0, 10);
    assert_eq!(get_separation_force(&c, &b), Vec2::new(0, 0));
}

#[test]
fn test_separation_force_exact_value() {
    // Distance 1000 between circles of radius 10000: inside the active
    // zone. The unit direction (1, 0) scaled to 1000 and divided by the
    // distance gives exactly (1000, 0).
    let a = circle_at(1000, 0, 10_000);
    let b = circle_at(0, 0, 10_000);
    assert_eq!(get_separation_force(&a, &b), Vec2::new(1000, 0));
    // Equal and opposite in the other order.
    assert_eq!(get_separation_force(&b, &a), Vec2::new(-1000, 0));
}

#[test]
fn test_isolation_damps_velocity() {
    // Two circles far apart: neither overlaps a higher-indexed circle, so
    // one tick zeroes both velocities and generates no separation force.
    let mut packer = Packer::default();
    let mut c0 = circle_at(0, 0, 10);
    c0.velocity = Vec2::new(5, 5);
    let mut c1 = circle_at(100, 0, 10);
    c1.velocity = Vec2::new(-2, 1);
    packer.add_circle(c0);
    packer.add_circle(c1);

    packer.update(1_000_000, 1_000_000);

    assert_eq!(packer.circles[0].velocity, Vec2::new(0, 0));
    assert_eq!(packer.circles[1].velocity, Vec2::new(0, 0));
    assert_eq!(packer.circles[0].xy, Vec2::new(0, 0));
    assert_eq!(packer.circles[1].xy, Vec2::new(100, 0));
}

#[test]
fn test_overlapping_circles_separate_monotonically() {
    // Two circles of equal radius with nearly coincident centers must
    // drift apart tick by tick, the center distance growing monotonically
    // until it exceeds one radius. (Exactly coincident centers sit in the
    // zero zone of the force field and would never move, so a seed is
    // chosen that starts them a nonzero distance apart.)
    let radius: i64 = 10_000;
    let mut chosen = None;
    for seed in 0..100u64 {
        let packer = Packer::new(1, radius, radius + 1, 1000, (1_000_000, 1_000_000), seed)
            .unwrap();
        let d = dist_sq(&packer.circles[0], &packer.circles[1]);
        if d > 0 {
            chosen = Some(packer);
            break;
        }
    }
    let mut packer = chosen.expect("every tried seed gave coincident centers");
    assert_eq!(packer.len(), 2);

    let mut d = dist_sq(&packer.circles[0], &packer.circles[1]);
    assert!(d < radius * radius);
    let mut escaped = false;
    for _ in 0..100 {
        packer.update(1_000_000_000, 1_000_000_000);
        let d_next = dist_sq(&packer.circles[0], &packer.circles[1]);
        assert!(d_next > d, "distance failed to grow: {} -> {}", d, d_next);
        d = d_next;
        if d > radius * radius {
            escaped = true;
            break;
        }
    }
    assert!(escaped, "circles never separated past one radius");
}

#[test]
fn test_packer_new_rejects_bad_config() {
    let hint = (1000, 1000);
    assert_eq!(
        Packer::new(1, 0, 10, 1, hint, 0).unwrap_err(),
        ConfigError::NonPositiveMinRadius
    );
    assert_eq!(
        Packer::new(1, 10, 10, 1, hint, 0).unwrap_err(),
        ConfigError::EmptyRadiusRange
    );
    assert_eq!(
        Packer::new(1, 5, 10, -1, hint, 0).unwrap_err(),
        ConfigError::NegativeVariance
    );
    assert_eq!(
        Packer::new(1, 5, 10, 1, (0, 1000), 0).unwrap_err(),
        ConfigError::NonPositiveBounds
    );
    assert_eq!(
        Packer::new(1, 5, 10, 1, (1000, -3), 0).unwrap_err(),
        ConfigError::NonPositiveBounds
    );
}

#[test]
fn test_packer_new_layout() {
    let packer = Packer::new(10, 9000, 10_000, 1000, (1000, 1000), 42).unwrap();
    assert_eq!(packer.len(), 11);
    assert!(!packer.is_empty());
    for c in packer.circles.iter() {
        assert!(c.radius >= 9000 && c.radius < 10_000);
        assert!(c.xy.x >= -1000 && c.xy.x <= 1000);
        assert!(c.xy.y >= -1000 && c.xy.y <= 1000);
        assert_eq!(c.velocity, Vec2::new(0, 0));
        assert_eq!(c.acceleration, Vec2::new(0, 0));
    }
    // The draws really vary: a generator stuck at the range's lower end
    // would make every radius 9000 and every coordinate -1000.
    assert!(packer.circles.iter().any(|c| c.radius != 9000));
    assert!(packer.circles.iter().any(|c| c.xy.x != -1000));
}

#[test]
fn test_packer_new_is_deterministic_per_seed() {
    let a = Packer::new(5, 9000, 10_000, 1000, (1000, 1000), 7).unwrap();
    let b = Packer::new(5, 9000, 10_000, 1000, (1000, 1000), 7).unwrap();
    assert_eq!(a.circles, b.circles);
}

#[test]
fn test_add_circle_len_is_empty() {
    let mut packer = Packer::default();
    assert!(packer.is_empty());
    assert_eq!(packer.len(), 0);
    packer.add_circle(circle_at(0, 0, 5));
    assert!(!packer.is_empty());
    assert_eq!(packer.len(), 1);
    assert_eq!(packer.circles[0].radius, 5);
}
