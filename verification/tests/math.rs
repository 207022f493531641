use latinimers::math::{get_distance_int, integer_sqrt, is_sharp_turn, Ratio};

#[test]
fn distance_of_a_point_from_itself_is_zero() {
    assert_eq!(get_distance_int(7, -3, 7, -3), 0);
}

#[test]
fn distance_of_whole_triangles_is_exact() {
    assert_eq!(get_distance_int(0, 0, 3, 4), 5);
    assert_eq!(get_distance_int(10, 10, 4, 2), 10);
    assert_eq!(get_distance_int(-5, 0, 0, 12), 13);
}

#[test]
fn distance_is_rounded_to_the_nearest_whole_number() {
    // sqrt(2) = 1.41, sqrt(5) = 2.24, sqrt(8) = 2.83, sqrt(13) = 3.61
    assert_eq!(get_distance_int(0, 0, 1, 1), 1);
    assert_eq!(get_distance_int(0, 0, 1, 2), 2);
    assert_eq!(get_distance_int(0, 0, 2, 2), 3);
    assert_eq!(get_distance_int(0, 0, 2, 3), 4);
    // sqrt(12) = 3.46 rounds down, sqrt(7) = 2.65 rounds up
    assert_eq!(get_distance_int(0, 0, 0, 0), 0);
    assert_eq!(get_distance_int(1, 1, 2, 1), 1);
}

#[test]
fn distance_does_not_depend_on_the_order_of_the_points() {
    let points = [(0, 0), (3, 9), (-120, 44), (1080, 400), (-1, -1)];
    for &(x1, y1) in points.iter() {
        for &(x2, y2) in points.iter() {
            assert_eq!(get_distance_int(x1, y1, x2, y2), get_distance_int(x2, y2, x1, y1));
        }
    }
}

#[test]
fn distance_is_capped_at_the_largest_number() {
    assert_eq!(get_distance_int(i32::MIN, i32::MIN, i32::MAX, i32::MAX), i32::MAX);
    assert_eq!(get_distance_int(i32::MIN, 0, i32::MAX, 0), i32::MAX);
    assert_eq!(get_distance_int(0, 0, i32::MAX, 0), i32::MAX);
    assert_eq!(get_distance_int(0, 0, 2147483646, 0), 2147483646);
}

#[test]
fn integer_sqrt_is_the_floor_of_the_root() {
    assert_eq!(integer_sqrt(0), 0);
    assert_eq!(integer_sqrt(1), 1);
    assert_eq!(integer_sqrt(3), 1);
    assert_eq!(integer_sqrt(4), 2);
    assert_eq!(integer_sqrt(99), 9);
    assert_eq!(integer_sqrt(100), 10);
    assert_eq!(integer_sqrt(1 << 64), 1 << 32);
    assert_eq!(integer_sqrt((1 << 64) - 1), (1 << 32) - 1);
    assert_eq!(integer_sqrt(u128::MAX), u64::MAX as u128);
}

#[test]
fn sharp_turn_begins_above_two_thirds_of_pi() {
    // Straight on and a right angle are no sharp turns.
    assert!(!is_sharp_turn(10, 0, 10, 0));
    assert!(!is_sharp_turn(0, 10, 10, 0));
    // Turning back is.
    assert!(is_sharp_turn(-10, 0, 10, 0));
    // 120 degrees exactly is not: cos = -1/2, the directions (2, 0) and (-1, sqrt 3).
    // Just above and just below, with whole steps:
    // angle of (-1000, 1732) is 120.0007 degrees, that of (-1000, 1733) is 119.99 degrees.
    assert!(is_sharp_turn(-1000, 1732, 1000, 0));
    assert!(!is_sharp_turn(-1000, 1733, 1000, 0));
}

#[test]
fn no_steps_have_the_direction_of_the_horizontal_axis() {
    assert!(is_sharp_turn(0, 0, -5, 0));
    assert!(!is_sharp_turn(0, 0, 5, 0));
    assert!(!is_sharp_turn(0, 0, 0, 0));
    assert!(is_sharp_turn(-5, 1, 0, 0));
}

#[test]
fn ratios_compare_as_fractions_do() {
    let third = Ratio::new(1, 3);
    let half = Ratio::new(2, 4);
    assert!(third.less_than(&half));
    assert!(!half.less_than(&third));
    assert!(half.same_as(&Ratio::new(1, 2)));
    assert!(!half.less_than(&Ratio::new(1, 2)));
    assert!(Ratio::new(-1, 2).less_than(&third));
}

#[test]
fn ratios_compare_with_hundredths() {
    assert!(Ratio::new(59, 100).below_hundredths(60));
    assert!(!Ratio::new(60, 100).below_hundredths(60));
    assert!(Ratio::new(19999, 10000).below_hundredths(200));
    assert!(!Ratio::new(2, 1).below_hundredths(200));
}

#[test]
fn percent_rounds_towards_zero() {
    assert_eq!(Ratio::new(1, 1).percent(), 100);
    assert_eq!(Ratio::new(0, 1).percent(), 0);
    assert_eq!(Ratio::new(161, 100).percent(), 161);
    assert_eq!(Ratio::new(2, 3).percent(), 66);
    assert_eq!(Ratio::new(-2, 3).percent(), -66);
    assert_eq!(Ratio::new(2, -3).percent(), -66);
    assert_eq!(Ratio::new(-2, -3).percent(), 66);
    assert_eq!(Ratio::new(1, 101).percent(), 0);
}

#[test]
fn percent_of_a_ratio_without_denominator() {
    assert_eq!(Ratio::new(5, 0).percent(), i32::MAX);
    assert_eq!(Ratio::new(-5, 0).percent(), i32::MIN);
    assert_eq!(Ratio::new(0, 0).percent(), 0);
}

#[test]
fn percent_is_kept_within_bounds() {
    assert_eq!(Ratio::new(1 << 60, 1).percent(), i32::MAX);
    assert_eq!(Ratio::new(-(1 << 60), 1).percent(), i32::MIN);
}
