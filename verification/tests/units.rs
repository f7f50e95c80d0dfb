use sim_core::components::{Position, Status, Team, Velocity};
use sim_core::units::{
    add_saturating, floor_to_units, isqrt, saturate, saturate_wide, scale_by_ratio,
    scale_to_nearest, sub_saturating, UNIT,
};
use sim_core::vec2::Vec2;

#[test]
fn saturation_stops_at_the_ends_of_the_range() {
    assert_eq!(saturate(5), 5);
    assert_eq!(saturate(i64::MAX), i32::MAX);
    assert_eq!(saturate(i64::MIN), i32::MIN);
    assert_eq!(saturate(i32::MAX as i64 + 1), i32::MAX);
    assert_eq!(saturate_wide(-7), -7);
    assert_eq!(saturate_wide(i128::MAX), i32::MAX);
    assert_eq!(saturate_wide(i128::MIN), i32::MIN);
    assert_eq!(add_saturating(i32::MAX, 1), i32::MAX);
    assert_eq!(add_saturating(3, 4), 7);
    assert_eq!(sub_saturating(i32::MIN, 1), i32::MIN);
    assert_eq!(sub_saturating(3, 4), -1);
}

#[test]
fn ratios_round_toward_zero() {
    assert_eq!(scale_by_ratio(7, 1, 2), 3);
    assert_eq!(scale_by_ratio(-7, 1, 2), -3);
    assert_eq!(scale_by_ratio(7, -1, 2), -3);
    assert_eq!(scale_by_ratio(16_000, 33, 1000), 528);
    assert_eq!(scale_by_ratio(i32::MAX, i64::MAX, 1), i32::MAX);
    assert_eq!(scale_by_ratio(i32::MIN, i64::MAX, 1), i32::MIN);
}

#[test]
fn ratios_round_to_nearest_with_halves_away_from_zero() {
    assert_eq!(scale_to_nearest(7, 1, 2), 4);
    assert_eq!(scale_to_nearest(-7, 1, 2), -4);
    assert_eq!(scale_to_nearest(7, -1, 2), -4);
    assert_eq!(scale_to_nearest(7, 1, 3), 2);
    assert_eq!(scale_to_nearest(8, 1, 3), 3);
    assert_eq!(scale_to_nearest(-8, 1, 3), -3);
    assert_eq!(scale_to_nearest(100_000, 1, 10), 10_000);
    assert_eq!(scale_to_nearest(0, 5, 7), 0);
    assert_eq!(scale_to_nearest(i32::MAX, i64::MAX, 1), i32::MAX);
    assert_eq!(scale_to_nearest(i32::MIN, i64::MAX, 1), i32::MIN);
    assert_eq!(scale_to_nearest(i32::MIN, i64::MIN, i64::MAX), i32::MAX);
}

#[test]
fn flooring_rounds_down_on_both_sides_of_zero() {
    assert_eq!(UNIT, 1000);
    assert_eq!(floor_to_units(0), 0);
    assert_eq!(floor_to_units(999), 0);
    assert_eq!(floor_to_units(1000), 1);
    assert_eq!(floor_to_units(1528), 1);
    assert_eq!(floor_to_units(-1), -1);
    assert_eq!(floor_to_units(-1000), -1);
    assert_eq!(floor_to_units(-1001), -2);
    assert_eq!(floor_to_units(i32::MIN), -2_147_484);
    assert_eq!(floor_to_units(i32::MAX), 2_147_483);
}

#[test]
fn square_roots_are_rounded_down() {
    assert_eq!(isqrt(0), 0);
    assert_eq!(isqrt(1), 1);
    assert_eq!(isqrt(3), 1);
    assert_eq!(isqrt(4), 2);
    assert_eq!(isqrt(200_000_000), 14_142);
    assert_eq!(isqrt(99_999_999), 9_999);
    assert_eq!(isqrt(u128::MAX), u64::MAX);
    assert_eq!(isqrt((1u128 << 64) - 1), (1u64 << 32) - 1);
}

#[test]
fn vectors_add_scale_and_multiply() {
    let a = Vec2::new(3, -4);
    let b = Vec2::new(10, 20);
    assert_eq!(a.plus(b), Vec2 { x: 13, y: 16 });
    assert_eq!(a.minus(b), Vec2 { x: -7, y: -24 });
    assert_eq!(a.scaled(-3), Vec2 { x: -9, y: 12 });
    assert_eq!(a.dot(b), -50);
    assert_eq!(a.magnitude_squared(), 25);
    let far = Vec2::new(i32::MAX, i32::MIN);
    assert_eq!(far.plus(Vec2::new(1, -1)), far);
    assert_eq!(far.scaled(2), far);
    assert_eq!(far.minus(Vec2::new(-1, 1)), far);
    assert_eq!(Vec2::new(i32::MIN, i32::MIN).magnitude_squared(), 1i128 << 63);
}

#[test]
fn components_convert_to_and_from_vectors() {
    assert_eq!(Position::from(Vec2 { x: 1, y: 2 }), Position { x: 1, y: 2 });
    assert_eq!(Vec2::from(Position { x: 1, y: 2 }), Vec2 { x: 1, y: 2 });
    assert_eq!(Velocity::from(Vec2 { x: 3, y: 4 }), Velocity { dx: 3, dy: 4 });
    assert_eq!(Vec2::from(Velocity { dx: 3, dy: 4 }), Vec2 { x: 3, y: 4 });
}

#[test]
fn the_default_status_is_an_enemy_that_spares_its_own() {
    assert_eq!(Status::default(), Status { collides_with_own_team: false, team: Team::ENEMY });
}
