use physics_sandbox::geometry::{absolute, halve, thousandth_of};
use physics_sandbox::Vec2;

#[test]
fn halve_rounds_down() {
    assert_eq!(halve(7), 3);
    assert_eq!(halve(-7), -4);
    assert_eq!(halve(-8), -4);
    assert_eq!(halve(-1), -1);
    assert_eq!(halve(0), 0);
    assert_eq!(halve(i64::MIN), i64::MIN / 2);
    assert_eq!(halve(i64::MIN + 1), i64::MIN / 2);
    assert_eq!(halve(i64::MAX), i64::MAX / 2);
}

#[test]
fn thousandth_rounds_towards_zero() {
    assert_eq!(thousandth_of(2999), 2);
    assert_eq!(thousandth_of(3000), 3);
    assert_eq!(thousandth_of(999), 0);
    assert_eq!(thousandth_of(-1), 0);
    assert_eq!(thousandth_of(-1000), -1);
    assert_eq!(thousandth_of(-1999), -1);
    assert_eq!(thousandth_of(i64::MIN + 1), -9_223_372_036_854_775);
}

#[test]
fn absolute_is_the_magnitude() {
    assert_eq!(absolute(-5), 5);
    assert_eq!(absolute(5), 5);
    assert_eq!(absolute(0), 0);
}

#[test]
fn midpoint_of_two_points() {
    let a = Vec2::new(100, 50);
    let b = Vec2::new(140, 90);
    assert_eq!(a.midpoint(b), Vec2::new(120, 70));
    assert_eq!(b.midpoint(a), Vec2::new(120, 70));
    assert_eq!(Vec2::new(-3, 3).midpoint(Vec2::new(0, 0)), Vec2::new(-2, 1));
}

#[test]
fn extent_reaches_from_the_centre_to_the_corner_and_as_far_beyond() {
    assert_eq!(Vec2::new(140, 90).extent_from(Vec2::new(120, 70)), Vec2::new(40, 40));
    assert_eq!(Vec2::new(-5, 70).extent_from(Vec2::new(120, 70)), Vec2::new(250, 0));
}

#[test]
fn displacement_leads_from_one_point_to_the_other() {
    assert_eq!(Vec2::new(3, 4).displacement_from(Vec2::new(10, -1)), Vec2::new(-7, 5));
    assert_eq!(Vec2::zero(), Vec2::new(0, 0));
}

#[test]
fn points_in_world_units() {
    assert_eq!(Vec2::from_units(3, -2), Some(Vec2::new(3000, -2000)));
    assert_eq!(Vec2::from_units(100_000, -100_000), Some(Vec2::new(100_000_000, -100_000_000)));
    assert_eq!(Vec2::from_units(100_001, 0), None);
    assert_eq!(Vec2::from_units(0, i64::MIN), None);
    assert!(Vec2::new(100_000_000, 0).is_in_world());
    assert!(!Vec2::new(0, -100_000_001).is_in_world());
}
