use vstd::prelude::*;
use rand::rngs::StdRng;
use crate::correspond::below_threshold;
use crate::error::RegistrationError;
use crate::correspond::fitness_spec;
use crate::icp::{seed_or_identity, solved, Registration};
use crate::point::{Point, MAX_POINTS, TRANSLATION_LIMIT};
use crate::population::{
    at_most_all, chance, draw_offset, initial_population, inputs_ok, absorb, best_of, searched, start_history, SearchOutcome, midpoint, nlerp,
    nlerp_spec, report, score_population, scored, shift, small_rotation, tournament, truncate_best, turn, turn_spec,
    Individual, MAX_POPULATION,
};
use crate::random::{draw_index, seeded_rng};
use crate::rotation::Quat;
use crate::transform::{clamp_translation_spec, Transform};

verus! {

/// Settings of the genetic algorithm. Rates are in thousandths; lengths in
/// the clouds' unit; rotation steps in quaternion units of `QUAT_ONE`.
#[derive(Debug, Clone, Copy, PartialEq, Eq, Structural)]
pub struct GaParams {
    /// Number of members, at most `MAX_POPULATION`; the starting pose is
    /// always one of them, so 0 or 1 gives a population of the seed alone.
    pub population_size: usize,
    pub generations: usize,
    /// Chance, in thousandths, that a child is mutated.
    pub mutation_rate: i64,
    /// Members drawn for each tournament; 0 draws one.
    pub tournament_size: usize,
    pub convergence_threshold: u128,
    /// Generations without improvement after which the run stops.
    pub stopping_threshold: usize,
    /// Initial translations are drawn from `[-translation_range, translation_range]`.
    pub translation_range: i64,
    /// Largest translation added by a mutation, per axis.
    pub translation_step: i64,
    /// Largest quaternion component of the rotation a mutation composes.
    pub rotation_step: i64,
    /// Seed of the random generator.
    pub seed: u64,
}

/// The child of two parents: the midpoint of their translations and the
/// rotation halfway between theirs.
pub fn crossover(a: &Transform, b: &Transform) -> (r: Transform)
    requires
        a.wf(),
        b.wf(),
    ensures
        r.rotation == nlerp_spec(a.rotation, b.rotation, 500),
        r.translation.x == (a.translation.x + b.translation.x) / 2,
        r.translation.y == (a.translation.y + b.translation.y) / 2,
        r.translation.z == (a.translation.z + b.translation.z) / 2,
        r.wf(),
{
    Transform { rotation: nlerp(&a.rotation, &b.rotation, 500), translation: midpoint(&a.translation, &b.translation) }
}

/// A mutation by the given draws: the translation moved by `(dx, dy, dz)`
/// and held to the search box, the rotation turned by `d`.
pub fn mutate(t: &Transform, dx: i64, dy: i64, dz: i64, d: &Quat) -> (r: Transform)
    requires
        t.wf(),
        d.wf(),
        -TRANSLATION_LIMIT <= dx <= TRANSLATION_LIMIT,
        -TRANSLATION_LIMIT <= dy <= TRANSLATION_LIMIT,
        -TRANSLATION_LIMIT <= dz <= TRANSLATION_LIMIT,
    ensures
        r == (Transform {
            rotation: turn_spec(t.rotation, *d),
            translation: clamp_translation_spec(t.translation.x + dx, t.translation.y + dy, t.translation.z + dz),
        }),
        r.wf(),
{
    Transform { rotation: turn(&t.rotation, d), translation: shift(&t.translation, dx, dy, dz) }
}

/// Genetic algorithm over rigid transforms. The population starts with
/// `initial` (or the identity) and random members; each generation selects
/// parents by tournament from the fitter half, crosses them (mean
/// translation, rotation midway), mutates some children, and keeps the best
/// transform ever seen. Fails with `EmptyInput` on an empty cloud.
/// Returns the transform of least fitness among every candidate it
/// evaluated, with all those candidates, the starting pose first. A
/// `population_size` above `MAX_POPULATION` is taken as `MAX_POPULATION`.
pub fn genetic_algorithm(source: &Vec<Point>, target: &Vec<Point>, params: &GaParams, initial: Option<Transform>) -> (r: Result<SearchOutcome, RegistrationError>)
    requires
        source@.len() <= MAX_POINTS,
        initial matches Some(t) ==> t.wf(),
    ensures
        r is Err <==> (source@.len() == 0 || target@.len() == 0),
        r is Err ==> r == Err::<SearchOutcome, RegistrationError>(RegistrationError::EmptyInput),
        r matches Ok(out) ==> searched(out, source@, target@, params.convergence_threshold),
        r matches Ok(out) ==> out.evaluated@[0] == seed_or_identity(initial),
        r matches Ok(out) ==> out.registration.fitness.total <= fitness_spec(seed_or_identity(initial), source@, target@),
{
    if source.len() == 0 || target.len() == 0 {
        return Err(RegistrationError::EmptyInput);
    }
    let mut rng = seeded_rng(params.seed);
    let seed = match initial {
        Some(t) => t,
        None => Transform::identity(),
    };
    let size = if params.population_size > MAX_POPULATION { MAX_POPULATION } else { params.population_size };
    let pop = initial_population(&mut rng, seed, size, params.translation_range);
    let out = evolve_ga(source, target, params, &pop, &mut rng);
    assert(pop@[0] == seed_or_identity(initial));
    assert(out.evaluated@[0] == pop@[0]);
    Ok(out)
}

/// The generations of the genetic algorithm from a given initial
/// population. The result is the least fitness among every candidate
/// evaluated, which are returned with it, the initial population first.
pub fn evolve_ga(source: &Vec<Point>, target: &Vec<Point>, params: &GaParams, initial: &Vec<Transform>, rng: &mut StdRng) -> (out: SearchOutcome)
    requires
        inputs_ok(source@, target@),
        0 < initial@.len() <= MAX_POPULATION,
        forall|i: int| 0 <= i < initial@.len() ==> #[trigger] initial@[i].wf(),
    ensures
        searched(out, source@, target@, params.convergence_threshold),
        at_most_all(out.registration.fitness.total as int, initial@, source@, target@),
        out.evaluated@.len() >= initial@.len(),
        forall|i: int| 0 <= i < initial@.len() ==> #[trigger] out.evaluated@[i] == initial@[i],
{
    let n = initial.len();
    let (mut pop, mut best) = score_population(initial, source, target);
    let mut history = start_history(initial);
    let mut stale: usize = 0;
    let mut g: usize = 0;
    while g < params.generations && !below_threshold(best.fitness, source.len(), params.convergence_threshold) && stale < params.stopping_threshold
        invariant
            inputs_ok(source@, target@),
            n == initial@.len(),
            0 < n <= MAX_POPULATION,
            pop@.len() == n,
            forall|i: int| 0 <= i < pop@.len() ==> #[trigger] scored(pop@[i], source@, target@),
            scored(best, source@, target@),
            at_most_all(best.fitness as int, initial@, source@, target@),
            best_of(best, history@, source@, target@),
            history@.len() >= initial@.len(),
            forall|i: int| 0 <= i < initial@.len() ==> #[trigger] history@[i] == initial@[i],
        decreases params.generations - g,
    {
        // Selection: half the population, each by tournament among the fitter half.
        let half = if n / 2 == 0 { 1 } else { n / 2 };
        let pool = truncate_best(&pop, half);
        let mut parents: Vec<Transform> = Vec::new();
        while parents.len() < half
            invariant
                0 < n <= MAX_POPULATION,
                pop@.len() == n,
                half <= n,
                pool@.len() == half,
                forall|i: int| 0 <= i < half ==> #[trigger] pool@[i] < pop@.len(),
                parents@.len() <= half,
                forall|i: int| 0 <= i < pop@.len() ==> #[trigger] scored(pop@[i], source@, target@),
                forall|i: int| 0 <= i < parents@.len() ==> #[trigger] parents@[i].wf(),
            decreases half - parents@.len(),
        {
            let k = tournament(rng, &pop, &pool, params.tournament_size);
            assert(pool@.contains(k));
            assert(scored(pop@[k as int], source@, target@));
            parents.push(pop[k].transform);
        }
        // Crossover and mutation.
        let mut children: Vec<Transform> = Vec::new();
        while children.len() < n
            invariant
                0 < n <= MAX_POPULATION,
                parents@.len() == half,
                0 < half <= n,
                children@.len() <= n,
                forall|i: int| 0 <= i < parents@.len() ==> #[trigger] parents@[i].wf(),
                forall|i: int| 0 <= i < children@.len() ==> #[trigger] children@[i].wf(),
            decreases n - children@.len(),
        {
            let ia = draw_index(rng, half);
            let ib = draw_index(rng, half);
            let a = parents[ia];
            let b = parents[ib];
            assert(parents@[ia as int].wf() && parents@[ib as int].wf());
            let mut t = crossover(&a, &b);
            if chance(rng, params.mutation_rate) {
                let dx = draw_offset(rng, params.translation_step);
                let dy = draw_offset(rng, params.translation_step);
                let dz = draw_offset(rng, params.translation_step);
                let d = small_rotation(rng, params.rotation_step);
                t = mutate(&t, dx, dy, dz, &d);
            }
            children.push(t);
        }
        let (next, champion) = score_population(&children, source, target);
        let improved = champion.fitness < best.fitness;
        best = absorb(best, &mut history, &children, champion, source, target);
        if improved {
            stale = 0;
        } else {
            stale = stale + 1;
        }
        pop = next;
        g = g + 1;
    }
    SearchOutcome { registration: report(best, source.len(), params.convergence_threshold), evaluated: history }
}

} // verus!
