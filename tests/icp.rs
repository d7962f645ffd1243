use cloud_registration::align::{alignment_input, alignment_step, AlignmentInput};
use cloud_registration::correspond::Correspondence;
use cloud_registration::error::RegistrationError;
use cloud_registration::icp::{iterative_closest_point, IcpParams, IcpRun, IcpStep, Registration};
use cloud_registration::point::{Point, Vec3};
use cloud_registration::rotation::{Quat, QUAT_ONE};
use cloud_registration::transform::Transform;
use nalgebra::{Matrix3, Rotation3, UnitQuaternion};

/// Closed-form rotation of a cross-covariance (Kabsch), as a scaled quaternion.
fn kabsch_rotation(input: &AlignmentInput) -> Quat {
    let m = input.covariance.m;
    let h = Matrix3::from_row_slice(&m.map(|v| v as f64));
    let svd = h.svd(true, true);
    let u = svd.u.unwrap();
    let v = svd.v_t.unwrap().transpose();
    let mut r = v * u.transpose();
    if r.determinant() < 0.0 {
        let smallest = (0..3)
            .min_by(|&a, &b| svd.singular_values[a].partial_cmp(&svd.singular_values[b]).unwrap())
            .unwrap();
        let mut v_fixed = v;
        v_fixed.column_mut(smallest).neg_mut();
        r = v_fixed * u.transpose();
    }
    let q = UnitQuaternion::from_rotation_matrix(&Rotation3::from_matrix_unchecked(r));
    let s = QUAT_ONE as f64;
    Quat::new((q.w * s).round() as i64, (q.i * s).round() as i64, (q.j * s).round() as i64, (q.k * s).round() as i64)
}

fn run_icp(source: Vec<Point>, target: Vec<Point>, params: IcpParams) -> Result<Registration, RegistrationError> {
    iterative_closest_point(source, target, None, params, kabsch_rotation)
}

fn cube(side: i32) -> Vec<Point> {
    let mut c = Vec::new();
    for x in [0, side] {
        for y in [0, side] {
            for z in [0, side] {
                c.push(Point::new(x, y, z));
            }
        }
    }
    c
}

#[test]
fn icp_recovers_a_translated_cube() {
    let source = cube(10);
    let target: Vec<Point> = source.iter().map(|p| Point::new(p.x + 1, p.y + 2, p.z + 3)).collect();
    let reg = run_icp(source, target, IcpParams { max_iterations: 50, convergence_threshold: 1 }).unwrap();
    assert_eq!(reg.transform.translation, Vec3::new(1, 2, 3));
    assert_eq!(reg.transform.rotation, Quat::identity());
    assert_eq!(reg.fitness.total, 0);
    assert!(reg.converged);
}

#[test]
fn icp_single_point_converges_at_once() {
    let origin = vec![Point::new(0, 0, 0)];
    let mut run = IcpRun::start(origin.clone(), origin, None, IcpParams { max_iterations: 10, convergence_threshold: 1 }).unwrap();
    match run.next() {
        IcpStep::Done(reg) => {
            assert_eq!(reg.transform, Transform::identity());
            assert_eq!(reg.fitness.total, 0);
            assert!(reg.converged);
        }
        IcpStep::Align(_) => panic!("expected immediate convergence"),
    }
}

#[test]
fn icp_reports_an_unusable_rotation() {
    let source = cube(10);
    let target: Vec<Point> = source.iter().map(|p| Point::new(p.x + 1, p.y, p.z)).collect();
    let params = IcpParams { max_iterations: 5, convergence_threshold: 0 };
    let r = iterative_closest_point(source, target, None, params, |_: &AlignmentInput| Quat::new(0, 0, 0, 0));
    assert_eq!(r, Err(RegistrationError::NumericFailure));
}

#[test]
fn icp_from_a_seed_that_already_fits() {
    let source = cube(10);
    let target: Vec<Point> = source.iter().map(|p| Point::new(p.x - 4, p.y + 6, p.z)).collect();
    let seed = Transform::new(Quat::identity(), Vec3::new(-4, 6, 0));
    let params = IcpParams { max_iterations: 5, convergence_threshold: 1 };
    let reg = iterative_closest_point(source, target, Some(seed), params, |_: &AlignmentInput| Quat::new(0, 0, 0, 0)).unwrap();
    assert_eq!(reg.transform, seed);
    assert!(reg.converged);
}

#[test]
fn icp_rejects_empty_clouds() {
    let params_for_solver = IcpParams { max_iterations: 10, convergence_threshold: 1 };
    assert_eq!(
        iterative_closest_point(Vec::new(), vec![Point::new(0, 0, 0)], None, params_for_solver, kabsch_rotation),
        Err(RegistrationError::EmptyInput)
    );
    let params = IcpParams { max_iterations: 10, convergence_threshold: 1 };
    let one = vec![Point::new(1, 1, 1)];
    assert_eq!(IcpRun::start(Vec::new(), one.clone(), None, params).err(), Some(RegistrationError::EmptyInput));
    assert_eq!(IcpRun::start(one, Vec::new(), None, params).err(), Some(RegistrationError::EmptyInput));
}

#[test]
fn icp_stops_after_max_iterations_with_its_best() {
    let source = cube(10);
    let target: Vec<Point> = source.iter().map(|p| Point::new(p.x + 1, p.y + 2, p.z + 3)).collect();
    let mut run = IcpRun::start(source, target, None, IcpParams { max_iterations: 0, convergence_threshold: 0 }).unwrap();
    match run.next() {
        IcpStep::Done(reg) => {
            assert!(!reg.converged);
            assert_eq!((reg.fitness.total, reg.fitness.count), (8 * 14, 8));
            assert_eq!(reg.transform, Transform::identity());
        }
        IcpStep::Align(_) => panic!("no rounds allowed"),
    }
}

#[test]
fn icp_best_fitness_never_grows() {
    let source = vec![Point::new(0, 0, 0), Point::new(40, 0, 0), Point::new(0, 25, 0), Point::new(0, 0, 15), Point::new(9, 9, 9)];
    let target: Vec<Point> = source.iter().map(|p| Point::new(p.x + 4, p.y - 3, p.z + 2)).collect();
    let mut run = IcpRun::start(source, target, None, IcpParams { max_iterations: 8, convergence_threshold: 0 }).unwrap();
    let mut last = u128::MAX;
    let mut rounds = 0;
    loop {
        match run.next() {
            IcpStep::Done(reg) => {
                assert!(reg.fitness.total <= last);
                break;
            }
            IcpStep::Align(input) => {
                let best = run.best.unwrap().1;
                assert!(best <= last);
                last = best;
                rounds += 1;
                run.supply_rotation(kabsch_rotation(&input)).unwrap();
            }
        }
    }
    assert_eq!(rounds, 8);
}

#[test]
fn zero_rotation_is_a_numeric_failure() {
    let source = cube(10);
    let target: Vec<Point> = source.iter().map(|p| Point::new(p.x + 1, p.y, p.z)).collect();
    let mut run = IcpRun::start(source, target, None, IcpParams { max_iterations: 5, convergence_threshold: 0 }).unwrap();
    match run.next() {
        IcpStep::Align(_) => {
            assert_eq!(run.supply_rotation(Quat::new(0, 0, 0, 0)), Err(RegistrationError::NumericFailure));
            assert_eq!(run.current, Transform::identity());
        }
        IcpStep::Done(_) => panic!("expected an alignment round"),
    }
}

#[test]
fn closed_form_alignment_recovers_a_known_transform() {
    // An asymmetric cloud and a quarter turn about z with a translation.
    let cloud = vec![
        Point::new(0, 0, 0),
        Point::new(400, 0, 0),
        Point::new(0, 250, 0),
        Point::new(0, 0, 150),
        Point::new(90, 170, 30),
    ];
    let truth = Transform::new(Quat::new(1, 0, 0, 1), Vec3::new(50, -30, 70));
    let pairs: Vec<Correspondence> = cloud
        .iter()
        .enumerate()
        .map(|(i, p)| {
            let moved = truth.apply(p);
            Correspondence { placed: p.lift(), matched: Point::new(moved.x as i32, moved.y as i32, moved.z as i32), index: i }
        })
        .collect();
    let input = alignment_input(&pairs);
    let found = alignment_step(&kabsch_rotation(&input), &input.source_sum, &input.target_sum, input.count).unwrap();
    for p in &cloud {
        let a = found.apply(p);
        let b = truth.apply(p);
        assert!((a.x - b.x).abs() <= 2 && (a.y - b.y).abs() <= 2 && (a.z - b.z).abs() <= 2, "{:?} vs {:?}", a, b);
    }
}

#[test]
fn reflected_covariance_still_gives_a_proper_rotation() {
    // A mirrored target: the raw SVD solution is a reflection; the guarded
    // one must be a rotation, and the library turns it into a unit quaternion.
    let cloud = vec![Point::new(0, 0, 0), Point::new(100, 0, 0), Point::new(0, 60, 0), Point::new(0, 0, 30)];
    let pairs: Vec<Correspondence> = cloud
        .iter()
        .enumerate()
        .map(|(i, p)| Correspondence { placed: p.lift(), matched: Point::new(p.x, p.y, -p.z), index: i })
        .collect();
    let input = alignment_input(&pairs);
    let q = kabsch_rotation(&input);
    let t = alignment_step(&q, &input.source_sum, &input.target_sum, input.count).unwrap();
    let r = t.rotation;
    let n2 = (r.w as i128).pow(2) + (r.x as i128).pow(2) + (r.y as i128).pow(2) + (r.z as i128).pow(2);
    let one = (QUAT_ONE as i128).pow(2);
    assert!((n2 - one).abs() * 1000 < one, "norm squared {} against {}", n2, one);
}

#[test]
fn icp_without_rounds_returns_the_seed() {
    let source = cube(10);
    let target: Vec<Point> = source.iter().map(|p| Point::new(p.x + 1, p.y + 2, p.z + 3)).collect();
    let seed = Transform::new(Quat::new(1, 0, 0, 1), Vec3::new(5, 5, 5));
    let params = IcpParams { max_iterations: 0, convergence_threshold: 0 };
    let reg = iterative_closest_point(source.clone(), target.clone(), Some(seed), params, kabsch_rotation).unwrap();
    assert_eq!(reg.transform, seed);
    assert!(!reg.converged);
    assert_eq!(reg.fitness, cloud_registration::correspond::fitness(&seed, &source, &target));
}

#[test]
fn icp_never_ends_worse_than_its_seed() {
    let source = vec![Point::new(0, 0, 0), Point::new(40, 0, 0), Point::new(0, 25, 0), Point::new(0, 0, 15), Point::new(9, 9, 9)];
    let target: Vec<Point> = source.iter().map(|p| Point::new(p.y + 3, -p.x, p.z + 1)).collect();
    let start = cloud_registration::correspond::fitness(&Transform::identity(), &source, &target);
    let reg = iterative_closest_point(source, target, None, IcpParams { max_iterations: 6, convergence_threshold: 0 }, kabsch_rotation).unwrap();
    assert!(reg.fitness.total <= start.total);
}

#[test]
fn exact_rotation_gives_the_exact_translation() {
    // A unit cube turned a quarter about z and moved: centroids at half
    // units, yet the translation comes back exactly.
    let cloud = cube(1);
    let truth = Transform::new(Quat::new(1, 0, 0, 1), Vec3::new(3, -2, 5));
    let pairs: Vec<Correspondence> = cloud
        .iter()
        .enumerate()
        .map(|(i, p)| {
            let moved = truth.apply(p);
            Correspondence { placed: p.lift(), matched: Point::new(moved.x as i32, moved.y as i32, moved.z as i32), index: i }
        })
        .collect();
    let input = alignment_input(&pairs);
    let found = alignment_step(&Quat::new(QUAT_ONE, 0, 0, QUAT_ONE), &input.source_sum, &input.target_sum, input.count).unwrap();
    assert_eq!(found.translation, truth.translation);
    for p in &cloud {
        assert_eq!(found.apply(p), truth.apply(p));
    }
}
