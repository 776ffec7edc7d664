use lib_plotings::get_wrapping_index;
use lib_plotings::interval::Interval;
use lib_plotings::map_t_of_range_a_to_range_b;

#[test]
fn test_wrapping_index_inside_grid() {
    assert_eq!(get_wrapping_index(3, 2, 10, 10), 23);
    assert_eq!(get_wrapping_index(0, 0, 7, 5), 0);
}

#[test]
fn test_wrapping_index_wraps_around() {
    // One step left of column 0 wraps to column 9; one step above row 0
    // wraps to row 9.
    assert_eq!(get_wrapping_index(-1, -1, 10, 10), 99);
    assert_eq!(get_wrapping_index(10, 0, 10, 10), 0);
    assert_eq!(get_wrapping_index(0, 10, 10, 10), 0);
    assert_eq!(get_wrapping_index(-1, 0, 10, 10), 9);
}

#[test]
fn test_map_range_scales_up() {
    assert_eq!(map_t_of_range_a_to_range_b(5, 0..10, 0..100), 50);
    assert_eq!(map_t_of_range_a_to_range_b(0, 0..10, 0..100), 0);
    assert_eq!(map_t_of_range_a_to_range_b(10, 0..10, 0..100), 100);
}

#[test]
fn test_map_range_reversed_target() {
    // A descending target range gives a negative slope: (0 - 100) / 10
    // truncates to -10, so 7 maps to 100 - 70 = 30.
    assert_eq!(map_t_of_range_a_to_range_b(7, 0..10, 100..0), 30);
}

#[test]
fn test_map_range_with_offset() {
    assert_eq!(map_t_of_range_a_to_range_b(15, 10..20, 200..300), 250);
}

#[test]
fn test_interval_long_cycle_does_not_fire() {
    let mut interval = Interval::new_from_seconds(3600);
    assert!(!interval.tick());
    assert!(!interval.tick());
}

#[test]
fn test_interval_zero_cycle_fires() {
    let mut interval = Interval::new_from_seconds(0);
    let mut fired = false;
    for _ in 0..1_000_000 {
        if interval.tick() {
            fired = true;
            break;
        }
    }
    assert!(fired, "a zero-length cycle never elapsed");
}

#[test]
fn test_interval_new_with_duration() {
    let mut interval = Interval::new(std::time::Duration::from_secs(3600));
    assert!(!interval.tick());
}
