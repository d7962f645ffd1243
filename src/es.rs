use vstd::prelude::*;
use rand::rngs::StdRng;
use crate::arith::{floor_div, isqrt};
use crate::correspond::below_threshold;
use crate::error::RegistrationError;
use crate::correspond::fitness_spec;
use crate::icp::{seed_or_identity, solved, Registration};
use crate::point::{Point, Vec3, MAX_POINTS, TRANSLATION_LIMIT};
use crate::population::{
    at_most_all, draw_offset, initial_population, inputs_ok, absorb, best_of, report, searched, start_history, SearchOutcome, score_population,
    scored, shift, small_rotation, truncate_best, turn, Individual, MAX_POPULATION,
};
use crate::random::seeded_rng;
use crate::rotation::{normalize, quat_dot, Quat};
use crate::transform::Transform;

verus! {

/// Settings of the evolution strategy.
#[derive(Debug, Clone, Copy, PartialEq, Eq, Structural)]
pub struct EsParams {
    /// Number of members, at most `MAX_POPULATION`; the starting pose is
    /// always one of them, so 0 or 1 gives a population of the seed alone.
    pub population_size: usize,
    pub generations: usize,
    pub convergence_threshold: u128,
    /// Initial translations are drawn from `[-translation_range, translation_range]`.
    pub translation_range: i64,
    /// Largest quaternion component of the rotation composed onto the mean.
    pub rotation_step: i64,
    /// Seed of the random generator.
    pub seed: u64,
}

/// Sum of coordinate `a` of the translations of the first `k` members.
pub open spec fn translation_sum(pop: Seq<Individual>, a: int, k: int) -> int
    decreases k,
{
    if k <= 0 {
        0
    } else {
        translation_sum(pop, a, k - 1) + if a == 0 {
            pop[k - 1].transform.translation.x as int
        } else if a == 1 {
            pop[k - 1].transform.translation.y as int
        } else {
            pop[k - 1].transform.translation.z as int
        }
    }
}

/// Mean of coordinate `a` of the population's translations, rounded down.
fn axis_mean(pop: &Vec<Individual>, a: usize) -> (r: i64)
    requires
        0 < pop@.len() <= MAX_POPULATION,
        forall|i: int| 0 <= i < pop@.len() ==> #[trigger] pop@[i].transform.wf(),
    ensures
        r == translation_sum(pop@, a as int, pop@.len() as int) / (pop@.len() as int),
        -TRANSLATION_LIMIT <= r <= TRANSLATION_LIMIT,
{
    let mut s: i128 = 0;
    let mut i: usize = 0;
    while i < pop.len()
        invariant
            0 < pop@.len() <= MAX_POPULATION,
            forall|i: int| 0 <= i < pop@.len() ==> #[trigger] pop@[i].transform.wf(),
            i <= pop@.len(),
            s == translation_sum(pop@, a as int, i as int),
            -(i * TRANSLATION_LIMIT) <= s <= i * TRANSLATION_LIMIT,
        decreases pop@.len() - i,
    {
        assert(pop@[i as int].transform.wf());
        let t = pop[i].transform.translation;
        let v = if a == 0 { t.x } else if a == 1 { t.y } else { t.z };
        s = s + v as i128;
        i = i + 1;
    }
    let n = pop.len() as i128;
    proof {
        lemma_mean_range(s as int, n as int);
    }
    floor_div(s, n) as i64
}

proof fn lemma_mean_range(s: int, n: int)
    requires
        0 < n,
        -(n * TRANSLATION_LIMIT) <= s <= n * TRANSLATION_LIMIT,
    ensures
        -TRANSLATION_LIMIT <= s / n <= TRANSLATION_LIMIT,
{
    vstd::arithmetic::div_mod::lemma_fundamental_div_mod(s, n);
    let q = s / n;
    let r = s % n;
    assert(-TRANSLATION_LIMIT <= q <= TRANSLATION_LIMIT) by (nonlinear_arith)
        requires s == n * q + r, 0 <= r < n, -(n * TRANSLATION_LIMIT) <= s <= n * TRANSLATION_LIMIT, n > 0;
}

/// Standard deviation of coordinate `a` of the translations about `mean`,
/// rounded down.
fn axis_spread(pop: &Vec<Individual>, a: usize, mean: i64) -> (r: i64)
    requires
        0 < pop@.len() <= MAX_POPULATION,
        forall|i: int| 0 <= i < pop@.len() ==> #[trigger] pop@[i].transform.wf(),
        -TRANSLATION_LIMIT <= mean <= TRANSLATION_LIMIT,
    ensures
        0 <= r,
{
    let mut s: i128 = 0;
    let mut i: usize = 0;
    while i < pop.len()
        invariant
            0 < pop@.len() <= MAX_POPULATION,
            forall|i: int| 0 <= i < pop@.len() ==> #[trigger] pop@[i].transform.wf(),
            -TRANSLATION_LIMIT <= mean <= TRANSLATION_LIMIT,
            i <= pop@.len(),
            0 <= s <= i * 0x400_0000_0000_0000_0000,
        decreases pop@.len() - i,
    {
        assert(pop@[i as int].transform.wf());
        let t = pop[i].transform.translation;
        let v = if a == 0 { t.x } else if a == 1 { t.y } else { t.z };
        let d: i128 = v as i128 - mean as i128;
        assert(0 <= d * d <= 0x400_0000_0000_0000_0000) by (nonlinear_arith)
            requires -0x20_0000_0000 <= d <= 0x20_0000_0000;
        s = s + d * d;
        i = i + 1;
    }
    let n = pop.len() as i128;
    let var = s / n;
    assert(var <= s) by (nonlinear_arith)
        requires var == s / n, s >= 0, n >= 1;
    assert(s <= 0x4000_0000_0000_0000_0000_0000) by (nonlinear_arith)
        requires s <= pop@.len() * 0x400_0000_0000_0000_0000, pop@.len() <= 0x10_0000;
    let r = isqrt(var as u128);
    assert(r <= 0x8000_0000_0000) by (nonlinear_arith)
        requires r * r <= var, var <= 0x4000_0000_0000_0000_0000_0000;
    r as i64
}

/// Mean rotation: the members' quaternions, each turned to the side of the
/// first, summed and normalized; the first member's rotation should the sum vanish.
fn mean_rotation(pop: &Vec<Individual>) -> (r: Quat)
    requires
        0 < pop@.len() <= MAX_POPULATION,
        forall|i: int| 0 <= i < pop@.len() ==> #[trigger] pop@[i].transform.wf(),
    ensures
        r.wf(),
{
    assert(pop@[0].transform.wf());
    let first = pop[0].transform.rotation;
    let (mut w, mut x, mut y, mut z): (i64, i64, i64, i64) = (0, 0, 0, 0);
    let mut i: usize = 0;
    while i < pop.len()
        invariant
            0 < pop@.len() <= MAX_POPULATION,
            forall|i: int| 0 <= i < pop@.len() ==> #[trigger] pop@[i].transform.wf(),
            first.wf(),
            i <= pop@.len(),
            -(i * 0x100_0000) <= w <= i * 0x100_0000,
            -(i * 0x100_0000) <= x <= i * 0x100_0000,
            -(i * 0x100_0000) <= y <= i * 0x100_0000,
            -(i * 0x100_0000) <= z <= i * 0x100_0000,
        decreases pop@.len() - i,
    {
        assert(pop@[i as int].transform.wf());
        let q = pop[i].transform.rotation;
        if quat_dot(&first, &q) < 0 {
            w = w - q.w;
            x = x - q.x;
            y = y - q.y;
            z = z - q.z;
        } else {
            w = w + q.w;
            x = x + q.x;
            y = y + q.y;
            z = z + q.z;
        }
        i = i + 1;
    }
    if w == 0 && x == 0 && y == 0 && z == 0 {
        first
    } else {
        normalize(w, x, y, z)
    }
}

/// Evolution strategy over rigid transforms. Each generation samples
/// offspring about the population's mean translation (spread by its
/// standard deviation per axis) and mean rotation (with a small random
/// turn), then keeps the fittest `population_size` of parents and offspring.
/// Fails with `EmptyInput` on an empty cloud.
/// Returns the transform of least fitness among every candidate it
/// evaluated, with all those candidates, the starting pose first. A
/// `population_size` above `MAX_POPULATION` is taken as `MAX_POPULATION`.
pub fn evolution_strategy(source: &Vec<Point>, target: &Vec<Point>, params: &EsParams, initial: Option<Transform>) -> (r: Result<SearchOutcome, RegistrationError>)
    requires
        source@.len() <= MAX_POINTS,
        initial matches Some(t) ==> t.wf(),
    ensures
        r is Err <==> (source@.len() == 0 || target@.len() == 0),
        r is Err ==> r == Err::<SearchOutcome, RegistrationError>(RegistrationError::EmptyInput),
        r matches Ok(out) ==> searched(out, source@, target@, params.convergence_threshold),
        r matches Ok(out) ==> out.evaluated@[0] == seed_or_identity(initial),
        r matches Ok(out) ==> out.registration.fitness.total <= fitness_spec(seed_or_identity(initial), source@, target@),
{
    if source.len() == 0 || target.len() == 0 {
        return Err(RegistrationError::EmptyInput);
    }
    let mut rng = seeded_rng(params.seed);
    let seed = match initial {
        Some(t) => t,
        None => Transform::identity(),
    };
    let size = if params.population_size > MAX_POPULATION { MAX_POPULATION } else { params.population_size };
    let pop = initial_population(&mut rng, seed, size, params.translation_range);
    let out = evolve_es(source, target, params, &pop, &mut rng);
    assert(pop@[0] == seed_or_identity(initial));
    assert(out.evaluated@[0] == pop@[0]);
    Ok(out)
}

/// The generations of the evolution strategy from a given initial
/// population. The result is the least fitness among every candidate
/// evaluated, which are returned with it, the initial population first.
pub fn evolve_es(source: &Vec<Point>, target: &Vec<Point>, params: &EsParams, initial: &Vec<Transform>, rng: &mut StdRng) -> (out: SearchOutcome)
    requires
        inputs_ok(source@, target@),
        0 < initial@.len() <= MAX_POPULATION,
        forall|i: int| 0 <= i < initial@.len() ==> #[trigger] initial@[i].wf(),
    ensures
        searched(out, source@, target@, params.convergence_threshold),
        at_most_all(out.registration.fitness.total as int, initial@, source@, target@),
        out.evaluated@.len() >= initial@.len(),
        forall|i: int| 0 <= i < initial@.len() ==> #[trigger] out.evaluated@[i] == initial@[i],
{
    let n = initial.len();
    let (mut pop, mut best) = score_population(initial, source, target);
    let mut history = start_history(initial);
    let mut g: usize = 0;
    while g < params.generations && !below_threshold(best.fitness, source.len(), params.convergence_threshold)
        invariant
            inputs_ok(source@, target@),
            n == initial@.len(),
            0 < n <= MAX_POPULATION,
            pop@.len() == n,
            forall|i: int| 0 <= i < pop@.len() ==> #[trigger] scored(pop@[i], source@, target@),
            scored(best, source@, target@),
            at_most_all(best.fitness as int, initial@, source@, target@),
            best_of(best, history@, source@, target@),
            history@.len() >= initial@.len(),
            forall|i: int| 0 <= i < initial@.len() ==> #[trigger] history@[i] == initial@[i],
        decreases params.generations - g,
    {
        assert forall|i: int| 0 <= i < pop@.len() implies #[trigger] pop@[i].transform.wf() by {
            assert(scored(pop@[i], source@, target@));
        }
        let mean = Vec3 { x: axis_mean(&pop, 0), y: axis_mean(&pop, 1), z: axis_mean(&pop, 2) };
        let (sx, sy, sz) = (axis_spread(&pop, 0, mean.x), axis_spread(&pop, 1, mean.y), axis_spread(&pop, 2, mean.z));
        let rot = mean_rotation(&pop);
        let mut offspring: Vec<Transform> = Vec::new();
        while offspring.len() < n
            invariant
                0 < n <= MAX_POPULATION,
                mean.within(TRANSLATION_LIMIT as int),
                rot.wf(),
                offspring@.len() <= n,
                forall|i: int| 0 <= i < offspring@.len() ==> #[trigger] offspring@[i].wf(),
            decreases n - offspring@.len(),
        {
            let dx = draw_offset(rng, sx);
            let dy = draw_offset(rng, sy);
            let dz = draw_offset(rng, sz);
            let d = small_rotation(rng, params.rotation_step);
            offspring.push(Transform { rotation: turn(&rot, &d), translation: shift(&mean, dx, dy, dz) });
        }
        let (children, champion) = score_population(&offspring, source, target);
        best = absorb(best, &mut history, &offspring, champion, source, target);
        // Truncation: the fittest `n` of parents and offspring.
        let mut merged = pop;
        let mut extra = children;
        merged.append(&mut extra);
        let keep = truncate_best(&merged, n);
        let mut next: Vec<Individual> = Vec::new();
        let mut k: usize = 0;
        while k < n
            invariant
                inputs_ok(source@, target@),
                keep@.len() == n,
                merged@.len() == 2 * n,
                forall|i: int| 0 <= i < n ==> #[trigger] keep@[i] < merged@.len(),
                forall|i: int| 0 <= i < merged@.len() ==> #[trigger] scored(merged@[i], source@, target@),
                k <= n,
                next@.len() == k,
                forall|i: int| 0 <= i < k ==> #[trigger] scored(next@[i], source@, target@),
            decreases n - k,
        {
            assert(keep@[k as int] < merged@.len());
            assert(scored(merged@[keep@[k as int] as int], source@, target@));
            next.push(merged[keep[k]]);
            k = k + 1;
        }
        pop = next;
        g = g + 1;
    }
    SearchOutcome { registration: report(best, source.len(), params.convergence_threshold), evaluated: history }
}

} // verus!
