use cloud_registration::arith::{floor_div, isqrt};
use cloud_registration::point::{squared_distance, Point, Vec3, TRANSLATION_LIMIT};
use cloud_registration::rotation::{compose_rotations, normalize, quat_dot, rotate, Quat, QUAT_ONE};
use cloud_registration::transform::{clamp, Transform};

#[test]
fn isqrt_exact_and_between_squares() {
    assert_eq!(isqrt(0), 0);
    assert_eq!(isqrt(1), 1);
    assert_eq!(isqrt(15), 3);
    assert_eq!(isqrt(16), 4);
    assert_eq!(isqrt(u128::MAX), u64::MAX as u128);
}

#[test]
fn floor_div_rounds_down() {
    assert_eq!(floor_div(7, 2), 3);
    assert_eq!(floor_div(-7, 2), -4);
    assert_eq!(floor_div(-8, 2), -4);
    assert_eq!(floor_div(0, 5), 0);
}

#[test]
fn squared_distance_is_exact() {
    let a = Vec3::new(0, 0, 0);
    assert_eq!(squared_distance(&a, &Point::new(3, 4, 0)), 25);
    assert_eq!(squared_distance(&Vec3::new(1, 2, 3), &Point::new(1, 2, 3)), 0);
    let far = Vec3::new(-(1 << 37), 0, 0);
    let p = Point::new(i32::MAX, 0, 0);
    let d = (i32::MAX as i128 + (1i128 << 37)) as u128;
    assert_eq!(squared_distance(&far, &p), d * d);
}

#[test]
fn normalize_scales_to_unit() {
    let q = normalize(0, 0, 0, 5);
    assert_eq!(q, Quat::new(0, 0, 0, QUAT_ONE));
    let q = normalize(-3, 4, 0, 0);
    assert_eq!(q, Quat::new(-QUAT_ONE * 3 / 5, QUAT_ONE * 4 / 5, 0, 0));
    let q = normalize(1, 1, 1, 1);
    assert_eq!(q, Quat::new(QUAT_ONE / 2, QUAT_ONE / 2, QUAT_ONE / 2, QUAT_ONE / 2));
}

#[test]
fn quarter_turn_about_z() {
    // (1, 0, 0, 1) stands for a quarter turn about z at any scale.
    let q = Quat::new(1, 0, 0, 1);
    assert_eq!(rotate(&q, &Vec3::new(10, 20, 30)), Vec3::new(-20, 10, 30));
    let q = normalize(1, 0, 0, 1);
    let r = rotate(&q, &Vec3::new(1000, 0, 0));
    assert!((r.x).abs() <= 1 && (r.y - 1000).abs() <= 1 && r.z == 0, "{:?}", r);
}

#[test]
fn identity_rotation_keeps_points() {
    let q = Quat::identity();
    let v = Vec3::new(-123456789, 987654321, -5);
    assert_eq!(rotate(&q, &v), v);
}

#[test]
fn composing_two_quarter_turns_gives_half_turn() {
    let q = Quat::new(1, 0, 0, 1);
    let h = compose_rotations(&q, &q);
    assert_eq!(h, Quat::new(0, 0, 0, QUAT_ONE));
    assert_eq!(rotate(&h, &Vec3::new(7, 9, 11)), Vec3::new(-7, -9, 11));
}

#[test]
fn opposite_quaternions_have_negative_dot() {
    let a = Quat::identity();
    let b = Quat::new(-QUAT_ONE, 0, 0, 0);
    assert_eq!(quat_dot(&a, &b), -(QUAT_ONE as i128) * (QUAT_ONE as i128));
}

#[test]
fn transform_rotates_then_translates() {
    let t = Transform::new(Quat::new(1, 0, 0, 1), Vec3::new(100, 200, 300));
    assert_eq!(t.apply(&Point::new(10, 20, 30)), Vec3::new(80, 210, 330));
    let placed = t.apply_all(&vec![Point::new(1, 0, 0), Point::new(0, 1, 0)]);
    assert_eq!(placed, vec![Vec3::new(100, 201, 300), Vec3::new(99, 200, 300)]);
}

#[test]
fn transform_translation_is_clamped() {
    let t = Transform::new(Quat::identity(), Vec3::new(i64::MAX, i64::MIN, 5));
    assert_eq!(t.translation, Vec3::new(TRANSLATION_LIMIT, -TRANSLATION_LIMIT, 5));
    assert_eq!(clamp(-9, 4), -4);
    assert_eq!(clamp(3, 4), 3);
}

#[test]
fn composition_applies_increment_after_accumulated() {
    let acc = Transform::new(Quat::identity(), Vec3::new(5, 0, 0));
    let inc = Transform::new(Quat::new(1, 0, 0, 1), Vec3::new(0, 0, 1));
    let both = acc.followed_by(&inc);
    let p = Point::new(1, 0, 0);
    // acc: (6, 0, 0); then the quarter turn: (0, 6, 0); then (0, 6, 1).
    assert_eq!(both.apply(&p), Vec3::new(0, 6, 1));
}
