use cloud_registration::correspond::nearest;
use cloud_registration::index::SpatialIndex;
use cloud_registration::point::{Point, Vec3};
use rand::rngs::StdRng;
use rand::{Rng, SeedableRng};

#[test]
fn index_ranks_points_by_x() {
    let cloud = vec![Point::new(5, 0, 0), Point::new(-3, 1, 1), Point::new(5, -1, 0), Point::new(0, 0, 0)];
    let index = SpatialIndex::build(&cloud);
    let (order, rank) = index.ranking.expect("ranking");
    assert_eq!(order, vec![1, 3, 0, 2]);
    for (j, &k) in rank.iter().enumerate() {
        assert_eq!(order[k], j);
    }
}

#[test]
fn index_agrees_with_a_full_scan() {
    let mut rng = StdRng::seed_from_u64(21);
    for _ in 0..20 {
        let cloud: Vec<Point> = (0..200)
            .map(|_| Point::new(rng.gen_range(-50..50), rng.gen_range(-50..50), rng.gen_range(-50..50)))
            .collect();
        let index = SpatialIndex::build(&cloud);
        for _ in 0..50 {
            let q = Vec3::new(rng.gen_range(-70..70), rng.gen_range(-70..70), rng.gen_range(-70..70));
            assert_eq!(index.nearest(&q), nearest(&cloud, &q));
        }
    }
}

#[test]
fn index_breaks_ties_by_construction_order() {
    let cloud = vec![Point::new(10, 0, 0), Point::new(-10, 0, 0), Point::new(0, 10, 0), Point::new(10, 0, 0)];
    let index = SpatialIndex::build(&cloud);
    assert_eq!(index.nearest(&Vec3::new(0, 0, 0)), 0);
    assert_eq!(index.nearest(&Vec3::new(11, 0, 0)), 0);
    assert_eq!(index.nearest(&Vec3::new(-4, 0, 0)), 1);
}

#[test]
fn index_of_a_single_point() {
    let cloud = vec![Point::new(7, 8, 9)];
    let index = SpatialIndex::build(&cloud);
    assert_eq!(index.nearest(&Vec3::new(-1000, 1000, 0)), 0);
}
