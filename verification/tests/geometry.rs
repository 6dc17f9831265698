use cell_game::geometry::{
    advance_coordinate, aim, divide_toward_zero, find_first_touched, isqrt, shift_coordinate,
    within_reach, Transform, Vec2, NANOS_PER_SECOND, UNIT,
};
use cell_game::mask::find_first_set;

fn square(x: i64, y: i64, side: i64) -> Transform {
    Transform::new(Vec2::new(x, y), Vec2::new(side, side))
}

#[test]
fn pixel_holds_whole_tiles_and_particles() {
    assert_eq!(UNIT, 2100);
    assert_eq!(500 * UNIT % 21, 0);
    assert_eq!(UNIT % 20, 0);
}

#[test]
fn touching_edges_do_not_overlap() {
    assert!(square(0, 0, 10).overlaps(&square(9, 9, 10)));
    assert!(!square(0, 0, 10).overlaps(&square(10, 0, 10)));
    assert!(!square(0, 0, 10).overlaps(&square(0, -10, 10)));
    assert!(square(0, 0, 3).overlaps(&square(2, 0, 2)));
    assert!(!square(0, 0, 3).overlaps(&square(3, 0, 3)));
    assert!(square(0, 0, 3).overlaps(&square(2, 2, 3)));
}

#[test]
fn overlap_is_mutual() {
    let a = Transform::new(Vec2::new(5, -3), Vec2::new(4, 9));
    let b = Transform::new(Vec2::new(8, 2), Vec2::new(3, 2));
    assert_eq!(a.overlaps(&b), b.overlaps(&a));
    assert!(a.overlaps(&b));
}

#[test]
fn overlap_at_the_ends_of_the_range() {
    let a = Transform::new(Vec2::new(i64::MAX, i64::MIN), Vec2::new(i64::MAX, i64::MAX));
    let b = Transform::new(Vec2::new(i64::MIN, i64::MAX), Vec2::new(i64::MAX, i64::MAX));
    assert!(!a.overlaps(&b));
    assert!(a.overlaps(&a));
}

#[test]
fn first_touched_is_the_first_in_order() {
    let others = vec![square(100, 0, 10), square(4, 0, 10), square(0, 0, 10)];
    assert_eq!(find_first_touched(&square(0, 0, 10), &others), Some(1));
    assert_eq!(find_first_touched(&square(0, 50, 10), &others), None);
    assert_eq!(find_first_touched(&square(0, 0, 10), &Vec::new()), None);
}

#[test]
fn first_set_is_the_first_in_order() {
    assert_eq!(find_first_set(&vec![false, false, true, true]), Some(2));
    assert_eq!(find_first_set(&vec![true]), Some(0));
    assert_eq!(find_first_set(&vec![false, false]), None);
    assert_eq!(find_first_set(&Vec::new()), None);
}

#[test]
fn travel_is_rounded_toward_zero() {
    assert_eq!(advance_coordinate(0, 3, NANOS_PER_SECOND / 2), 1);
    assert_eq!(advance_coordinate(0, -3, NANOS_PER_SECOND / 2), -1);
    assert_eq!(advance_coordinate(10, 7, 999_999_999), 16);
    assert_eq!(advance_coordinate(10, -7, 999_999_999), 4);
    assert_eq!(advance_coordinate(10, 126_000, 16_666_667), 2110);
    assert_eq!(advance_coordinate(5, i64::MIN, 0), 5);
}

#[test]
fn travel_stops_at_the_ends_of_the_range() {
    assert_eq!(advance_coordinate(i64::MAX - 1, 10, NANOS_PER_SECOND), i64::MAX);
    assert_eq!(advance_coordinate(i64::MIN + 1, -10, NANOS_PER_SECOND), i64::MIN);
    assert_eq!(advance_coordinate(0, i64::MAX, u64::MAX), i64::MAX);
    assert_eq!(advance_coordinate(0, i64::MIN, u64::MAX), i64::MIN);
    assert_eq!(shift_coordinate(i64::MAX, 1), i64::MAX);
    assert_eq!(shift_coordinate(i64::MIN, -1), i64::MIN);
    assert_eq!(shift_coordinate(-4, 9), 5);
}

#[test]
fn points_move_along_their_velocity() {
    let point = Vec2::new(10, -10);
    assert_eq!(point.advance(&Vec2::new(4, -6), NANOS_PER_SECOND / 2), Vec2::new(12, -13));
    assert_eq!(point.shift(&Vec2::new(-10, 10)), Vec2::new(0, 0));
}

#[test]
fn division_rounds_toward_zero() {
    assert_eq!(divide_toward_zero(7, 2), 3);
    assert_eq!(divide_toward_zero(-7, 2), -3);
    assert_eq!(divide_toward_zero(-6, 2), -3);
    assert_eq!(divide_toward_zero(0, 5), 0);
    assert_eq!(divide_toward_zero(i128::MAX, 1), i128::MAX);
}

#[test]
fn square_roots_are_rounded_down() {
    assert_eq!(isqrt(0), 0);
    assert_eq!(isqrt(1), 1);
    assert_eq!(isqrt(3), 1);
    assert_eq!(isqrt(4), 2);
    assert_eq!(isqrt(24), 4);
    assert_eq!(isqrt(25), 5);
    assert_eq!(isqrt(1 << 64), 1 << 32);
    assert_eq!(isqrt((1 << 64) - 1), (1 << 32) - 1);
    assert_eq!(isqrt(u128::MAX), u64::MAX);
}

#[test]
fn aim_keeps_the_direction() {
    let origin = Vec2::new(10, 10);
    assert_eq!(aim(&origin, &Vec2::new(13, 14), 0, 100), Some(Vec2::new(60, 80)));
    assert_eq!(aim(&origin, &Vec2::new(7, 6), 0, 100), Some(Vec2::new(-60, -80)));
    assert_eq!(aim(&origin, &Vec2::new(10, 3), 0, 9), Some(Vec2::new(0, -9)));
    assert_eq!(aim(&origin, &Vec2::new(11, 11), 0, 100), Some(Vec2::new(100, 100)));
    assert_eq!(aim(&origin, &Vec2::new(12, 12), 0, 100), Some(Vec2::new(100, 100)));
    assert_eq!(aim(&origin, &Vec2::new(110, 110), 0, 100), Some(Vec2::new(70, 70)));
    assert_eq!(aim(&origin, &origin, 0, 100), None);
    assert_eq!(aim(&origin, &Vec2::new(13, 14), 0, 0), Some(Vec2::new(0, 0)));
}

#[test]
fn aim_counts_the_depth() {
    let origin = Vec2::new(0, 0);
    assert_eq!(aim(&origin, &Vec2::new(4, 8), 1, 90), Some(Vec2::new(40, 80)));
    assert_eq!(aim(&origin, &Vec2::new(2, 3), 6, 70), Some(Vec2::new(20, 30)));
    assert_eq!(aim(&origin, &origin, 5, 70), Some(Vec2::new(0, 0)));
}

#[test]
fn aim_over_the_whole_range() {
    let far = Vec2::new(i64::MAX, 0);
    let near = Vec2::new(i64::MIN, 0);
    assert_eq!(aim(&near, &far, 0, i64::MAX), Some(Vec2::new(i64::MAX, 0)));
    assert_eq!(aim(&far, &near, 0, 5), Some(Vec2::new(-5, 0)));
}

#[test]
fn reach_ends_where_the_square_of_the_distance_does() {
    let low = Vec2::new(i64::MIN, i64::MIN);
    let high = Vec2::new(i64::MAX, i64::MAX);
    assert!(within_reach(&low, &Vec2::new(i64::MAX, i64::MIN), 0));
    assert!(within_reach(&low, &Vec2::new(i64::MAX, i64::MIN), u32::MAX));
    assert!(!within_reach(&low, &high, 0));
    assert!(within_reach(&Vec2::new(0, 0), &high, 7));
    assert!(within_reach(&Vec2::new(0, 0), &low, 7));
    let side: u64 = 13_043_817_825_332_782_212;
    let half = (side / 2) as i64;
    assert!(within_reach(&Vec2::new(-half, -half), &Vec2::new(half, half), 0));
    assert!(!within_reach(&Vec2::new(-half, -half), &Vec2::new(half + 1, half + 1), 0));
    assert!(!within_reach(&Vec2::new(-half, -half), &Vec2::new(half, half), u32::MAX));
}
