use cloud_registration::correspond::fitness;
use cloud_registration::de::{differential_evolution, evolve_de, pick_three, DeParams};
use cloud_registration::error::RegistrationError;
use cloud_registration::es::{evolution_strategy, evolve_es, EsParams};
use cloud_registration::ga::{evolve_ga, genetic_algorithm, GaParams};
use cloud_registration::point::{Point, Vec3};
use cloud_registration::population::{argmin, chance, fittest_of, random_transform, tournament, truncate_best, Individual};
use cloud_registration::pso::{evolve_pso, particle_swarm_optimization, PsoParams};
use cloud_registration::rotation::Quat;
use cloud_registration::transform::Transform;
use rand::rngs::StdRng;
use rand::SeedableRng;

fn ga_params(seed: u64) -> GaParams {
    GaParams {
        population_size: 20,
        generations: 15,
        mutation_rate: 100,
        tournament_size: 3,
        convergence_threshold: 1,
        stopping_threshold: 10,
        translation_range: 20,
        translation_step: 2,
        rotation_step: 1 << 20,
        seed,
    }
}

fn es_params(seed: u64) -> EsParams {
    EsParams { population_size: 20, generations: 15, convergence_threshold: 1, translation_range: 20, rotation_step: 1 << 20, seed }
}

fn pso_params(seed: u64) -> PsoParams {
    PsoParams {
        population_size: 20,
        iterations: 15,
        constriction_factor: 700,
        inertia_weight: 700,
        cognitive_weight: 1500,
        social_weight: 1500,
        initial_weight: 500,
        convergence_threshold: 1,
        translation_range: 20,
        seed,
    }
}

fn de_params(seed: u64) -> DeParams {
    DeParams { population_size: 20, generations: 15, crossover_probability: 700, scale_factor: 800, convergence_threshold: 1, translation_range: 20, seed }
}

fn cube(side: i32) -> Vec<Point> {
    let mut c = Vec::new();
    for x in [0, side] {
        for y in [0, side] {
            for z in [0, side] {
                c.push(Point::new(x, y, z));
            }
        }
    }
    c
}

#[test]
fn every_solver_rejects_an_empty_cloud() {
    let one = vec![Point::new(1, 2, 3)];
    let none: Vec<Point> = Vec::new();
    for (s, t) in [(&none, &one), (&one, &none)] {
        assert_eq!(genetic_algorithm(s, t, &ga_params(1), None), Err(RegistrationError::EmptyInput));
        assert_eq!(evolution_strategy(s, t, &es_params(1), None), Err(RegistrationError::EmptyInput));
        assert_eq!(particle_swarm_optimization(s, t, &pso_params(1), None), Err(RegistrationError::EmptyInput));
        assert_eq!(differential_evolution(s, t, &de_params(1), None), Err(RegistrationError::EmptyInput));
    }
}

#[test]
fn every_solver_converges_at_once_on_a_single_point() {
    let origin = vec![Point::new(0, 0, 0)];
    let results = [
        genetic_algorithm(&origin, &origin, &ga_params(3), None).unwrap().registration,
        evolution_strategy(&origin, &origin, &es_params(3), None).unwrap().registration,
        particle_swarm_optimization(&origin, &origin, &pso_params(3), None).unwrap().registration,
        differential_evolution(&origin, &origin, &de_params(3), None).unwrap().registration,
    ];
    for reg in results {
        assert_eq!(reg.transform, Transform::identity());
        assert_eq!(reg.fitness.total, 0);
        assert!(reg.converged);
    }
}

#[test]
fn solvers_report_the_true_fitness_of_their_result() {
    let source = cube(10);
    let target: Vec<Point> = source.iter().map(|p| Point::new(p.x + 1, p.y + 2, p.z + 3)).collect();
    let results = [
        genetic_algorithm(&source, &target, &ga_params(5), None).unwrap(),
        evolution_strategy(&source, &target, &es_params(5), None).unwrap(),
        particle_swarm_optimization(&source, &target, &pso_params(5), None).unwrap(),
        differential_evolution(&source, &target, &de_params(5), None).unwrap(),
    ];
    for out in results {
        let reg = out.registration;
        // The least fitness among every candidate evaluated, the seed first.
        assert_eq!(out.evaluated[0], Transform::identity());
        assert!(out.evaluated.contains(&reg.transform));
        for t in &out.evaluated {
            assert!(reg.fitness.total <= fitness(t, &source, &target).total);
        }
        assert_eq!(reg.fitness, fitness(&reg.transform, &source, &target));
        // Mean below 1 over eight points.
        assert_eq!(reg.converged, reg.fitness.total < 8);
        // The identity, always in the initial population, has fitness 8 * 14.
        assert!(reg.fitness.total <= 8 * 14);
    }
}

#[test]
fn same_seed_gives_the_same_result() {
    let source = cube(10);
    let target: Vec<Point> = source.iter().map(|p| Point::new(p.x + 2, p.y, p.z - 1)).collect();
    assert_eq!(genetic_algorithm(&source, &target, &ga_params(9), None), genetic_algorithm(&source, &target, &ga_params(9), None));
    assert_eq!(differential_evolution(&source, &target, &de_params(9), None), differential_evolution(&source, &target, &de_params(9), None));
}

#[test]
fn population_solvers_never_regress_below_the_initial_population() {
    let source = cube(10);
    let target: Vec<Point> = source.iter().map(|p| Point::new(p.x + 3, p.y - 2, p.z + 1)).collect();
    let mut rng = StdRng::seed_from_u64(11);
    let initial: Vec<Transform> = (0..12).map(|_| random_transform(&mut rng, 5)).collect();
    let initial_fitness: Vec<u128> = initial.iter().map(|t| fitness(t, &source, &target).total).collect();
    let results = [
        evolve_ga(&source, &target, &ga_params(2), &initial, &mut rng),
        evolve_es(&source, &target, &es_params(2), &initial, &mut rng),
        evolve_pso(&source, &target, &pso_params(2), &initial, &mut rng),
        evolve_de(&source, &target, &de_params(2), &initial, &mut rng),
    ];
    for out in results {
        assert_eq!(out.evaluated[..initial.len()], initial[..]);
        for f in &initial_fitness {
            assert!(out.registration.fitness.total <= *f);
        }
    }
}

#[test]
fn pick_three_gives_distinct_other_indices() {
    let mut rng = StdRng::seed_from_u64(4);
    for i in 0..4 {
        for _ in 0..50 {
            let (a, b, c) = pick_three(&mut rng, 4, i);
            let mut all = vec![a, b, c, i];
            all.sort();
            assert_eq!(all, vec![0, 1, 2, 3]);
        }
    }
}

#[test]
fn truncation_keeps_the_fittest() {
    let t = Transform::identity();
    let merged: Vec<Individual> = [9u128, 3, 7, 3, 1, 8].iter().map(|&f| Individual { transform: t, fitness: f }).collect();
    let kept = truncate_best(&merged, 3);
    assert_eq!(kept, vec![4, 1, 3]);
    assert_eq!(truncate_best(&merged, 0), Vec::<usize>::new());
}

#[test]
fn argmin_takes_the_earliest_least() {
    assert_eq!(argmin(&vec![5, 2, 9, 2]), 1);
    assert_eq!(argmin(&vec![0]), 0);
}

#[test]
fn random_transforms_stay_in_the_box() {
    let mut rng = StdRng::seed_from_u64(8);
    for _ in 0..100 {
        let t = random_transform(&mut rng, 7);
        assert!(t.translation.x.abs() <= 7 && t.translation.y.abs() <= 7 && t.translation.z.abs() <= 7);
        assert_ne!(t.rotation, Quat::new(0, 0, 0, 0));
    }
    let _ = Vec3::new(0, 0, 0);
}

#[test]
fn fittest_of_the_picks_wins() {
    let t = Transform::identity();
    let pop: Vec<Individual> = [9u128, 3, 7, 3, 1].iter().map(|&f| Individual { transform: t, fitness: f }).collect();
    assert_eq!(fittest_of(&pop, &vec![0, 2, 3, 1]), 3);
    assert_eq!(fittest_of(&pop, &vec![2]), 2);
    assert_eq!(fittest_of(&pop, &vec![0, 4, 4]), 4);
}

#[test]
fn tournaments_stay_in_their_pool() {
    let t = Transform::identity();
    let pop: Vec<Individual> = [9u128, 3, 7, 3, 1].iter().map(|&f| Individual { transform: t, fitness: f }).collect();
    let mut rng = StdRng::seed_from_u64(6);
    let pool = vec![0, 2];
    for k in 0..5 {
        let w = tournament(&mut rng, &pop, &pool, k);
        assert!(pool.contains(&w));
    }
    // Many draws from the whole population almost surely meet the fittest.
    assert_eq!(tournament(&mut rng, &pop, &vec![0, 1, 2, 3, 4], 200), 4);
}

#[test]
fn chance_at_the_extremes() {
    let mut rng = StdRng::seed_from_u64(7);
    for _ in 0..50 {
        assert!(chance(&mut rng, 1001));
        assert!(!chance(&mut rng, 0));
    }
}

#[test]
fn de_with_a_single_member_returns_its_seed() {
    let source = cube(10);
    let target: Vec<Point> = source.iter().map(|p| Point::new(p.x + 1, p.y, p.z)).collect();
    let seed = Transform::new(Quat::new(1, 0, 0, 1), Vec3::new(2, 2, 2));
    let mut params = de_params(12);
    params.population_size = 1;
    let reg = differential_evolution(&source, &target, &params, Some(seed)).unwrap().registration;
    assert_eq!(reg.transform, seed);
    assert_eq!(reg.fitness, fitness(&seed, &source, &target));
}
