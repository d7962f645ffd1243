use cloud_registration::de::{differential, greedy_replace};
use cloud_registration::ga::{crossover, mutate};
use cloud_registration::point::{Vec3, TRANSLATION_LIMIT};
use cloud_registration::population::{nlerp, shift, turn, Individual};
use cloud_registration::pso::velocity_axis;
use cloud_registration::rotation::{Quat, QUAT_ONE};
use cloud_registration::transform::Transform;

#[test]
fn crossover_takes_the_midpoint_and_the_halfway_rotation() {
    let a = Transform::new(Quat::identity(), Vec3::new(0, 10, -3));
    let b = Transform::new(Quat::new(0, 0, 0, QUAT_ONE), Vec3::new(4, 11, 0));
    let c = crossover(&a, &b);
    assert_eq!(c.translation, Vec3::new(2, 10, -2));
    // Halfway between the identity and a half turn about z: a quarter turn.
    let h = (QUAT_ONE as f64 / 2f64.sqrt()) as i64;
    assert!((c.rotation.w - h).abs() <= 1 && (c.rotation.z - h).abs() <= 1 && c.rotation.x == 0 && c.rotation.y == 0, "{:?}", c.rotation);
}

#[test]
fn nlerp_ends_and_shorter_way() {
    let a = Quat::identity();
    let b = Quat::new(0, QUAT_ONE, 0, 0);
    assert_eq!(nlerp(&a, &b, 0), a);
    assert_eq!(nlerp(&a, &b, 1000), b);
    assert_eq!(nlerp(&a, &b, 5000), b);
    // `-a` is the same rotation as `a`: blending toward it stays at `a`.
    let minus_a = Quat::new(-QUAT_ONE, 0, 0, 0);
    assert_eq!(nlerp(&a, &minus_a, 500), a);
}

#[test]
fn mutation_shifts_and_turns() {
    let t = Transform::new(Quat::identity(), Vec3::new(1, 2, 3));
    let m = mutate(&t, 10, -20, 30, &Quat::new(0, 0, 0, QUAT_ONE));
    assert_eq!(m.translation, Vec3::new(11, -18, 33));
    assert_eq!(m.rotation, Quat::new(0, 0, 0, QUAT_ONE));
    assert_eq!(shift(&Vec3::new(TRANSLATION_LIMIT, 0, 0), 5, 0, 0), Vec3::new(TRANSLATION_LIMIT, 0, 0));
    assert_eq!(turn(&Quat::identity(), &Quat::identity()), Quat::identity());
}

#[test]
fn differential_mutation_of_a_coordinate() {
    assert_eq!(differential(10, 30, 20, 800), 18);
    assert_eq!(differential(10, 20, 30, 800), 2);
    assert_eq!(differential(10, 20, 21, 500), 9);
    assert_eq!(differential(TRANSLATION_LIMIT, TRANSLATION_LIMIT, -TRANSLATION_LIMIT, 2000), TRANSLATION_LIMIT);
}

#[test]
fn greedy_replacement_keeps_the_fitter() {
    let id = Transform::identity();
    let moved = Transform::new(Quat::identity(), Vec3::new(1, 0, 0));
    let pop = vec![Individual { transform: id, fitness: 5 }, Individual { transform: id, fitness: 5 }, Individual { transform: id, fitness: 5 }];
    let trials = vec![moved, moved, moved];
    let next = greedy_replace(&pop, &trials, &vec![4, 5, 6]);
    assert_eq!(next[0], Individual { transform: moved, fitness: 4 });
    assert_eq!(next[1], pop[1]);
    assert_eq!(next[2], pop[2]);
}

#[test]
fn velocity_blends_inertia_and_pulls() {
    // c = 1, w = 0.5, c1 = 2, c2 = 1, ci = 0; draws 1, 0.5, 0.
    let ws = (1000, 500, 2000, 1000, 0);
    let rs = (1000, 500, 0);
    // 0.5 * 10 + 2 * 1 * (8 - 0) + 1 * 0.5 * (-4 - 0) = 5 + 16 - 2 = 19
    assert_eq!(velocity_axis(ws, rs, 10, 0, 8, -4, 100), 19);
    // Constriction 0.5 halves it, rounding down.
    assert_eq!(velocity_axis((500, 500, 2000, 1000, 0), rs, 10, 0, 8, -4, 100), 9);
}
