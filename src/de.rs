use vstd::prelude::*;
use rand::rngs::StdRng;
use crate::correspond::below_threshold;
use crate::error::RegistrationError;
use crate::correspond::fitness_spec;
use crate::icp::{seed_or_identity, solved, Registration};
use crate::point::{Point, Vec3, MAX_POINTS, TRANSLATION_LIMIT};
use crate::population::{
    argmin, at_most_all, chance, evaluate_all, initial_population, inputs_ok, absorb, best_of, searched, start_history, SearchOutcome, nlerp, nlerp_spec, report,
    score_population, scored, turn, turn_spec, Individual, MAX_POPULATION,
};
use crate::random::{draw_index, seeded_rng};
use crate::rotation::Quat;
use crate::transform::{clamp, clamp_spec, Transform};

verus! {

/// Settings of differential evolution. Probabilities and factors are in thousandths.
#[derive(Debug, Clone, Copy, PartialEq, Eq, Structural)]
pub struct DeParams {
    /// Number of members, at most `MAX_POPULATION`; the starting pose is
    /// always one of them. Below four members no mutant can be formed, and
    /// the result is the best initial member.
    pub population_size: usize,
    pub generations: usize,
    /// Chance, in thousandths, that a trial takes each part from the mutant.
    pub crossover_probability: i64,
    /// Differential weight `F`, in thousandths.
    pub scale_factor: i64,
    pub convergence_threshold: u128,
    /// Initial translations are drawn from `[-translation_range, translation_range]`.
    pub translation_range: i64,
    /// Seed of the random generator.
    pub seed: u64,
}

/// Three distinct indices of `0..n`, all different from `i`.
pub fn pick_three(rng: &mut StdRng, n: usize, i: usize) -> (r: (usize, usize, usize))
    requires
        4 <= n <= MAX_POPULATION,
        i < n,
    ensures
        r.0 < n && r.1 < n && r.2 < n,
        r.0 != i && r.1 != i && r.2 != i,
        r.0 != r.1 && r.0 != r.2 && r.1 != r.2,
{
    let mut a = draw_index(rng, n - 1);
    if a >= i {
        a = a + 1;
    }
    let (lo, hi) = if a < i { (a, i) } else { (i, a) };
    let mut b = draw_index(rng, n - 2);
    if b >= lo {
        b = b + 1;
    }
    if b >= hi {
        b = b + 1;
    }
    let (s0, s1, s2) = if b < lo { (b, lo, hi) } else if b < hi { (lo, b, hi) } else { (lo, hi, b) };
    let mut c = draw_index(rng, n - 3);
    if c >= s0 {
        c = c + 1;
    }
    if c >= s1 {
        c = c + 1;
    }
    if c >= s2 {
        c = c + 1;
    }
    (a, b, c)
}

/// `a + F (b - c)` on one coordinate, `F` in thousandths, the step rounded
/// down, held to the search box.
pub fn differential(a: i64, b: i64, c: i64, f: i64) -> (r: i64)
    requires
        -TRANSLATION_LIMIT <= a <= TRANSLATION_LIMIT,
        -TRANSLATION_LIMIT <= b <= TRANSLATION_LIMIT,
        -TRANSLATION_LIMIT <= c <= TRANSLATION_LIMIT,
        0 <= f <= 2000,
    ensures
        r == clamp_spec(a + ((b - c) * f) / 1000, TRANSLATION_LIMIT as int),
{
    let d: i128 = b as i128 - c as i128;
    assert(-0x40_0000_0000_000 * 0x100 <= d * f <= 0x40_0000_0000_000 * 0x100) by (nonlinear_arith)
        requires -0x20_0000_0000 <= d <= 0x20_0000_0000, 0 <= f <= 2000;
    let step = crate::arith::floor_div(d * f as i128, 1000);
    assert(-0x20_0000_0000 * 2000 <= step <= 0x20_0000_0000 * 2000) by (nonlinear_arith)
        requires step == (d * f) / 1000, -0x20_0000_0000 <= d <= 0x20_0000_0000, 0 <= f <= 2000;
    clamp((a as i128 + step) as i64, TRANSLATION_LIMIT)
}

/// Differential mutation of a rotation: the turn from `c` to `b`, scaled by
/// `F` thousandths (interpolated from the identity), composed onto `a`.
pub fn differential_rotation(a: &Quat, b: &Quat, c: &Quat, f: i64) -> (r: Quat)
    requires
        a.wf(),
        b.wf(),
        c.wf(),
    ensures
        r == turn_spec(*a, nlerp_spec(Quat::identity_spec(), turn_spec(Quat { w: c.w, x: (-c.x) as i64, y: (-c.y) as i64, z: (-c.z) as i64 }, *b), f as int)),
        r.wf(),
{
    let c_inv = Quat { w: c.w, x: -c.x, y: -c.y, z: -c.z };
    assert(c_inv.norm2() == c.norm2()) by (nonlinear_arith)
        requires c_inv.w == c.w, c_inv.x == -c.x, c_inv.y == -c.y, c_inv.z == -c.z;
    let d = turn(&c_inv, b);
    let scaled = nlerp(&Quat::identity(), &d, f);
    turn(a, &scaled)
}

/// Greedy replacement: member `i` is replaced by trial `i`, of fitness
/// `fits[i]`, only when the trial is strictly fitter; so no member gets worse.
pub fn greedy_replace(pop: &Vec<Individual>, trials: &Vec<Transform>, fits: &Vec<u128>) -> (r: Vec<Individual>)
    requires
        trials@.len() == pop@.len(),
        fits@.len() == pop@.len(),
    ensures
        r@.len() == pop@.len(),
        forall|i: int| 0 <= i < pop@.len() ==> #[trigger] r@[i] == if fits@[i] < pop@[i].fitness {
            Individual { transform: trials@[i], fitness: fits@[i] }
        } else {
            pop@[i]
        },
        forall|i: int| 0 <= i < pop@.len() ==> #[trigger] r@[i].fitness <= pop@[i].fitness,
{
    let mut next: Vec<Individual> = Vec::new();
    let mut i: usize = 0;
    while i < pop.len()
        invariant
            trials@.len() == pop@.len(),
            fits@.len() == pop@.len(),
            i <= pop@.len(),
            next@.len() == i,
            forall|j: int| 0 <= j < i ==> #[trigger] next@[j] == if fits@[j] < pop@[j].fitness {
                Individual { transform: trials@[j], fitness: fits@[j] }
            } else {
                pop@[j]
            },
        decreases pop@.len() - i,
    {
        if fits[i] < pop[i].fitness {
            next.push(Individual { transform: trials[i], fitness: fits[i] });
        } else {
            next.push(pop[i]);
        }
        i = i + 1;
    }
    next
}

/// Differential evolution over rigid transforms. For each member, a mutant
/// `a + F (b - c)` is formed from three other distinct members on the
/// translation and on the rotation; the trial takes each part from the mutant
/// with the crossover probability; a trial replaces its member only when
/// strictly fitter. Fails with `EmptyInput` on an empty cloud.
/// Returns the transform of least fitness among every candidate it
/// evaluated, with all those candidates, the starting pose first. A
/// `population_size` above `MAX_POPULATION` is taken as `MAX_POPULATION`.
pub fn differential_evolution(source: &Vec<Point>, target: &Vec<Point>, params: &DeParams, initial: Option<Transform>) -> (r: Result<SearchOutcome, RegistrationError>)
    requires
        source@.len() <= MAX_POINTS,
        initial matches Some(t) ==> t.wf(),
    ensures
        r is Err <==> (source@.len() == 0 || target@.len() == 0),
        r is Err ==> r == Err::<SearchOutcome, RegistrationError>(RegistrationError::EmptyInput),
        r matches Ok(out) ==> searched(out, source@, target@, params.convergence_threshold),
        r matches Ok(out) ==> out.evaluated@[0] == seed_or_identity(initial),
        r matches Ok(out) ==> out.registration.fitness.total <= fitness_spec(seed_or_identity(initial), source@, target@),
        params.population_size <= 1 ==> (r matches Ok(out) ==> out.registration.transform == seed_or_identity(initial)),
{
    if source.len() == 0 || target.len() == 0 {
        return Err(RegistrationError::EmptyInput);
    }
    let mut rng = seeded_rng(params.seed);
    let seed = match initial {
        Some(t) => t,
        None => Transform::identity(),
    };
    let size = if params.population_size > MAX_POPULATION { MAX_POPULATION } else { params.population_size };
    let pop = initial_population(&mut rng, seed, size, params.translation_range);
    let out = evolve_de(source, target, params, &pop, &mut rng);
    assert(pop@[0] == seed_or_identity(initial));
    assert(out.evaluated@[0] == pop@[0]);
    Ok(out)
}

/// The generations of differential evolution from a given initial
/// population. No member ever gets worse, so the result is never worse than
/// any initial member.
pub fn evolve_de(source: &Vec<Point>, target: &Vec<Point>, params: &DeParams, initial: &Vec<Transform>, rng: &mut StdRng) -> (out: SearchOutcome)
    requires
        inputs_ok(source@, target@),
        0 < initial@.len() <= MAX_POPULATION,
        forall|i: int| 0 <= i < initial@.len() ==> #[trigger] initial@[i].wf(),
    ensures
        searched(out, source@, target@, params.convergence_threshold),
        at_most_all(out.registration.fitness.total as int, initial@, source@, target@),
        out.evaluated@.len() >= initial@.len(),
        forall|i: int| 0 <= i < initial@.len() ==> #[trigger] out.evaluated@[i] == initial@[i],
        initial@.len() < 4 ==> exists|i: int| 0 <= i < initial@.len() && #[trigger] initial@[i] == out.registration.transform,
{
    let n = initial.len();
    let f = if params.scale_factor < 0 { 0 } else if params.scale_factor > 2000 { 2000 } else { params.scale_factor };
    let (mut pop, mut best) = score_population(initial, source, target);
    let mut history = start_history(initial);
    let mut g: usize = 0;
    assert forall|i: int| 0 <= i < n implies #[trigger] pop@[i].fitness <= fitness_of_initial(initial@, i, source@, target@) by {
        assert(pop@[i].transform == initial@[i] && scored(pop@[i], source@, target@));
    }
    while g < params.generations && !below_threshold(best.fitness, source.len(), params.convergence_threshold) && n >= 4
        invariant
            inputs_ok(source@, target@),
            n == initial@.len(),
            0 < n <= MAX_POPULATION,
            0 <= f <= 2000,
            pop@.len() == n,
            forall|i: int| 0 <= i < n ==> #[trigger] scored(pop@[i], source@, target@),
            forall|i: int| 0 <= i < n ==> #[trigger] pop@[i].fitness <= fitness_of_initial(initial@, i, source@, target@),
            scored(best, source@, target@),
            at_most_all(best.fitness as int, initial@, source@, target@),
            n < 4 ==> exists|i: int| 0 <= i < initial@.len() && #[trigger] initial@[i] == best.transform,
            best_of(best, history@, source@, target@),
            history@.len() >= initial@.len(),
            forall|i: int| 0 <= i < initial@.len() ==> #[trigger] history@[i] == initial@[i],
        decreases params.generations - g,
    {
        // Trials for every member, from the current population.
        let mut trials: Vec<Transform> = Vec::new();
        while trials.len() < n
            invariant
                4 <= n <= MAX_POPULATION,
                0 <= f <= 2000,
                pop@.len() == n,
                forall|i: int| 0 <= i < n ==> #[trigger] scored(pop@[i], source@, target@),
                trials@.len() <= n,
                forall|i: int| 0 <= i < trials@.len() ==> #[trigger] trials@[i].wf(),
            decreases n - trials@.len(),
        {
            let i = trials.len();
            let (ia, ib, ic) = pick_three(rng, n, i);
            assert(scored(pop@[ia as int], source@, target@) && scored(pop@[ib as int], source@, target@)
                && scored(pop@[ic as int], source@, target@) && scored(pop@[i as int], source@, target@));
            let (a, b, c) = (pop[ia].transform, pop[ib].transform, pop[ic].transform);
            let own = pop[i].transform;
            let translation = if chance(rng, params.crossover_probability) {
                Vec3 {
                    x: differential(a.translation.x, b.translation.x, c.translation.x, f),
                    y: differential(a.translation.y, b.translation.y, c.translation.y, f),
                    z: differential(a.translation.z, b.translation.z, c.translation.z, f),
                }
            } else {
                own.translation
            };
            let rotation = if chance(rng, params.crossover_probability) {
                differential_rotation(&a.rotation, &b.rotation, &c.rotation, f)
            } else {
                own.rotation
            };
            trials.push(Transform { rotation, translation });
        }
        let fits = evaluate_all(&trials, source, target);
        let next = greedy_replace(&pop, &trials, &fits);
        assert forall|j: int| 0 <= j < n implies #[trigger] scored(next@[j], source@, target@) by {
            assert(scored(pop@[j], source@, target@));
            assert(trials@[j].wf());
            assert(fits@[j] == crate::correspond::fitness_spec(trials@[j], source@, target@));
        }
        let k = argmin(&fits);
        assert(trials@[k as int].wf());
        let champion = Individual { transform: trials[k], fitness: fits[k] };
        assert forall|j: int| 0 <= j < trials@.len() implies champion.fitness <= #[trigger] fitness_spec(trials@[j], source@, target@) by {
            assert(fits@[j] == fitness_spec(trials@[j], source@, target@));
        }
        assert(trials@[k as int] == champion.transform);
        best = absorb(best, &mut history, &trials, champion, source, target);
        assert forall|j: int| 0 <= j < n implies #[trigger] next@[j].fitness <= fitness_of_initial(initial@, j, source@, target@) by {
            assert(pop@[j].fitness <= fitness_of_initial(initial@, j, source@, target@));
        }
        pop = next;
        g = g + 1;
    }
    SearchOutcome { registration: report(best, source.len(), params.convergence_threshold), evaluated: history }
}

/// Fitness of initial member `i`.
pub open spec fn fitness_of_initial(initial: Seq<Transform>, i: int, source: Seq<Point>, target: Seq<Point>) -> int {
    crate::correspond::fitness_spec(initial[i], source, target)
}

} // verus!
