use cloud_registration::correspond::{below_threshold, compute_residual_error, find_correspondences, fitness, nearest, Correspondence};
use cloud_registration::point::{Point, Vec3};
use cloud_registration::rotation::Quat;
use cloud_registration::transform::Transform;

fn cube(side: i32) -> Vec<Point> {
    let mut c = Vec::new();
    for x in [0, side] {
        for y in [0, side] {
            for z in [0, side] {
                c.push(Point::new(x, y, z));
            }
        }
    }
    c
}

#[test]
fn nearest_takes_the_closest_and_the_earliest_on_a_tie() {
    let target = vec![Point::new(10, 0, 0), Point::new(-10, 0, 0), Point::new(0, 3, 0)];
    assert_eq!(nearest(&target, &Vec3::new(0, 0, 0)), 2);
    assert_eq!(nearest(&target, &Vec3::new(0, -20, 0)), 0);
    assert_eq!(nearest(&target, &Vec3::new(9, 0, 0)), 0);
}

#[test]
fn identity_correspondence_pairs_each_point_with_itself() {
    let c = vec![Point::new(1, 2, 3), Point::new(-4, 5, 6), Point::new(1, 2, 3), Point::new(100, -100, 7)];
    let placed: Vec<Vec3> = c.iter().map(|p| p.lift()).collect();
    let pairs = find_correspondences(&placed, &c);
    assert_eq!(pairs.len(), c.len());
    for (i, pair) in pairs.iter().enumerate() {
        assert_eq!(pair.matched, c[i]);
        assert_eq!(pair.placed, c[i].lift());
    }
    assert_eq!(compute_residual_error(&pairs).total, 0);
    assert_eq!(fitness(&Transform::identity(), &c, &c).total, 0);
}

#[test]
fn residual_is_the_exact_mean_squared_distance() {
    let pairs = vec![
        Correspondence { placed: Vec3::new(0, 0, 0), matched: Point::new(3, 4, 0), index: 0 },
        Correspondence { placed: Vec3::new(0, 0, 0), matched: Point::new(0, 0, 2), index: 1 },
    ];
    let r = compute_residual_error(&pairs);
    assert_eq!((r.total, r.count), (29, 2));
    assert_eq!(r.floor(), 14);
    let pairs = vec![
        Correspondence { placed: Vec3::new(0, 0, 0), matched: Point::new(0, 0, 0), index: 0 },
        Correspondence { placed: Vec3::new(1, 0, 0), matched: Point::new(0, 0, 0), index: 0 },
    ];
    let r = compute_residual_error(&pairs);
    assert_eq!((r.total, r.count), (1, 2));
    assert!(r.below(1) && !r.below(0));
}

#[test]
fn fitness_of_a_translated_cube() {
    let source = cube(10);
    let target: Vec<Point> = source.iter().map(|p| Point::new(p.x + 1, p.y + 2, p.z + 3)).collect();
    assert_eq!(fitness(&Transform::identity(), &source, &target).total, 8 * 14);
    let right = Transform::new(Quat::identity(), Vec3::new(1, 2, 3));
    assert_eq!(fitness(&right, &source, &target).total, 0);
}

#[test]
fn fitness_uses_nearest_points_not_indices() {
    let source = vec![Point::new(0, 0, 0)];
    let target = vec![Point::new(50, 0, 0), Point::new(0, 0, 4)];
    assert_eq!(fitness(&Transform::identity(), &source, &target).total, 16);
}

#[test]
fn fitness_is_zero_only_when_every_point_is_met() {
    let source = vec![Point::new(0, 0, 0), Point::new(1, 0, 0)];
    let target = vec![Point::new(0, 0, 0)];
    assert_eq!(fitness(&Transform::identity(), &source, &target).total, 1);
    let target = vec![Point::new(0, 0, 0), Point::new(1, 0, 0)];
    assert_eq!(fitness(&Transform::identity(), &source, &target).total, 0);
}

#[test]
fn convergence_compares_the_exact_mean() {
    // Sum 7 over 4 points: mean 1.75.
    assert!(below_threshold(7, 4, 2));
    assert!(!below_threshold(8, 4, 2));
    assert!(!below_threshold(7, 4, 1));
    assert!(!below_threshold(0, 1, 0));
}

#[test]
fn fitness_is_the_mean_over_source_points() {
    // Two source points at distance 1 from the only target point: mean 1.
    let source = vec![Point::new(1, 0, 0), Point::new(-1, 0, 0)];
    let target = vec![Point::new(0, 0, 0)];
    let f = fitness(&Transform::identity(), &source, &target);
    assert_eq!((f.total, f.count), (2, 2));
    assert_eq!(f.floor(), 1);
}
