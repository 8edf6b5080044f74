use boids::vector::{ceil_sqrt_u128, clamp_length_max, Vec2};

#[test]
fn ceil_sqrt_small_values() {
    assert_eq!(ceil_sqrt_u128(0), 0);
    assert_eq!(ceil_sqrt_u128(1), 1);
    assert_eq!(ceil_sqrt_u128(2), 2);
    assert_eq!(ceil_sqrt_u128(4), 2);
    assert_eq!(ceil_sqrt_u128(5), 3);
    assert_eq!(ceil_sqrt_u128(25_000_000), 5000);
}

#[test]
fn ceil_sqrt_largest_input() {
    assert_eq!(ceil_sqrt_u128(1u128 << 127), 13043817825332782213);
}

#[test]
fn length_squared_of_extreme_vector() {
    let v = Vec2::new(i64::MIN, i64::MIN);
    assert_eq!(v.length_squared(), 1u128 << 127);
    assert_eq!(Vec2::new(3, -4).length_squared(), 25);
}

#[test]
fn clamp_keeps_short_vector() {
    assert_eq!(clamp_length_max(Vec2::new(3, 4), 5), Vec2::new(3, 4));
    assert_eq!(clamp_length_max(Vec2::new(0, 0), 0), Vec2::new(0, 0));
}

#[test]
fn clamp_shortens_long_vector() {
    assert_eq!(clamp_length_max(Vec2::new(6, 8), 5), Vec2::new(3, 4));
    assert_eq!(clamp_length_max(Vec2::new(-6, -8), 5), Vec2::new(-3, -4));
    assert_eq!(clamp_length_max(Vec2::new(10, 1), 5), Vec2::new(4, 0));
    assert_eq!(clamp_length_max(Vec2::new(1, 1), 1), Vec2::new(0, 0));
    assert_eq!(clamp_length_max(Vec2::new(7, 0), 0), Vec2::new(0, 0));
}

#[test]
fn clamp_extreme_vector_stays_within_limit() {
    let r = clamp_length_max(Vec2::new(i64::MIN, i64::MAX), u32::MAX);
    let m = u32::MAX as u128;
    assert!(r.length_squared() <= m * m);
    assert!(r.x < 0 && r.y > 0);
}

#[test]
fn zero_vector_is_zero() {
    assert!(Vec2::zero().is_zero());
    assert!(!Vec2::new(0, -1).is_zero());
}
