use vstd::prelude::*;
use rand::rngs::StdRng;
use crate::arith::floor_div;
use crate::correspond::below_threshold;
use crate::error::RegistrationError;
use crate::correspond::fitness_spec;
use crate::icp::{seed_or_identity, solved, Registration};
use crate::point::{Point, Vec3, MAX_POINTS, TRANSLATION_LIMIT};
use crate::population::{
    at_most_all, evaluate_all, initial_population, inputs_ok, absorb, argmin, best_of, searched, start_history, SearchOutcome, keep_better, nlerp, report,
    score_population, scored, shift, turn, Individual, MAX_POPULATION,
};
use crate::random::{draw_permille, seeded_rng};
use crate::rotation::Quat;
use crate::transform::{clamp, clamp_spec, Transform};

verus! {

/// Settings of particle swarm optimization. Weights are in thousandths.
#[derive(Debug, Clone, Copy, PartialEq, Eq, Structural)]
pub struct PsoParams {
    /// Number of particles, at most `MAX_POPULATION`; the starting pose is
    /// always one of them, so 0 or 1 gives a swarm of the seed alone.
    pub population_size: usize,
    pub iterations: usize,
    /// Scales the whole velocity update.
    pub constriction_factor: i64,
    /// Weight of the previous velocity.
    pub inertia_weight: i64,
    /// Pull toward the particle's own best position.
    pub cognitive_weight: i64,
    /// Pull toward the swarm's best position.
    pub social_weight: i64,
    /// Pull back toward the particle's initial position.
    pub initial_weight: i64,
    pub convergence_threshold: u128,
    /// Initial translations are drawn from `[-translation_range, translation_range]`.
    pub translation_range: i64,
    /// Seed of the random generator.
    pub seed: u64,
}

/// A particle: where it is, how it moves, where it started, and the best
/// place it has been.
#[derive(Debug, Clone, Copy, PartialEq, Eq, Structural)]
pub struct Particle {
    pub position: Transform,
    /// Translation moved in the last step.
    pub velocity: Vec3,
    /// Rotation turned in the last step.
    pub spin: Quat,
    pub initial: Transform,
    pub best: Individual,
}

/// A weight held to `[0, 4000]` thousandths.
fn weight(w: i64) -> (r: i64)
    ensures
        0 <= r <= 4000,
{
    if w < 0 { 0 } else if w > 4000 { 4000 } else { w }
}

/// `w * r * d / 10^6`, rounded down: a weight `w` and a draw `r`, both in
/// thousandths, applied to a gap `d`.
pub open spec fn pull_spec(w: int, r: int, d: int) -> int {
    (w * r * d) / 1_000_000
}

/// A value held to `[-2^37, 2^37]`.
pub open spec fn clamp_wide_spec(v: int) -> int {
    if v > 0x20_0000_0000 { 0x20_0000_0000 } else if v < -0x20_0000_0000 { -0x20_0000_0000 } else { v }
}

/// One coordinate of the new velocity: the constriction `c` applied to the
/// inertia `w v` plus the pulls toward the personal best, the global best and
/// the start, each weighted and scaled by its draw.
pub open spec fn velocity_spec(ws: (i64, i64, i64, i64, i64), rs: (i64, i64, i64), v: int, x: int, pb: int, gb: int, x0: int) -> int {
    let sum = pull_spec(ws.1 as int, 1000, v) + pull_spec(ws.2 as int, rs.0 as int, pb - x)
        + pull_spec(ws.3 as int, rs.1 as int, gb - x) + pull_spec(ws.4 as int, rs.2 as int, x0 - x);
    clamp_spec(pull_spec(ws.0 as int, 1000, clamp_wide_spec(sum)), TRANSLATION_LIMIT as int)
}

fn pull(w: i64, r: i64, d: i128) -> (p: i128)
    requires
        0 <= w <= 4000,
        0 <= r <= 1000,
        -0x20_0000_0000 <= d <= 0x20_0000_0000,
    ensures
        p == pull_spec(w as int, r as int, d as int),
        -0x20_0000_0000 * 4 <= p <= 0x20_0000_0000 * 4,
{
    assert(0 <= w * r <= 4000 * 1000) by (nonlinear_arith)
        requires 0 <= w <= 4000, 0 <= r <= 1000;
    let wr = w as i128 * r as i128;
    assert(-0x20_0000_0000 * 4_000_000 <= wr * d <= 0x20_0000_0000 * 4_000_000) by (nonlinear_arith)
        requires 0 <= wr <= 4_000_000, -0x20_0000_0000 <= d <= 0x20_0000_0000;
    let p = floor_div(wr * d, 1_000_000);
    assert(-0x20_0000_0000 * 4 <= p <= 0x20_0000_0000 * 4) by (nonlinear_arith)
        requires p == (wr * d) / 1_000_000, -0x20_0000_0000 * 4_000_000 <= wr * d <= 0x20_0000_0000 * 4_000_000;
    p
}

/// One coordinate of the new velocity:
/// `c (w v + c1 r1 (pb - x) + c2 r2 (gb - x) + ci r3 (x0 - x))`, held to the search box.
pub fn velocity_axis(ws: (i64, i64, i64, i64, i64), rs: (i64, i64, i64), v: i64, x: i64, pb: i64, gb: i64, x0: i64) -> (r: i64)
    requires
        0 <= ws.0 <= 4000 && 0 <= ws.1 <= 4000 && 0 <= ws.2 <= 4000 && 0 <= ws.3 <= 4000 && 0 <= ws.4 <= 4000,
        0 <= rs.0 <= 1000 && 0 <= rs.1 <= 1000 && 0 <= rs.2 <= 1000,
        -TRANSLATION_LIMIT <= v <= TRANSLATION_LIMIT,
        -TRANSLATION_LIMIT <= x <= TRANSLATION_LIMIT,
        -TRANSLATION_LIMIT <= pb <= TRANSLATION_LIMIT,
        -TRANSLATION_LIMIT <= gb <= TRANSLATION_LIMIT,
        -TRANSLATION_LIMIT <= x0 <= TRANSLATION_LIMIT,
    ensures
        r == velocity_spec(ws, rs, v as int, x as int, pb as int, gb as int, x0 as int),
        -TRANSLATION_LIMIT <= r <= TRANSLATION_LIMIT,
{
    let (c, w, c1, c2, ci) = ws;
    let inertia = pull(w, 1000, v as i128);
    let cognitive = pull(c1, rs.0, pb as i128 - x as i128);
    let social = pull(c2, rs.1, gb as i128 - x as i128);
    let back = pull(ci, rs.2, x0 as i128 - x as i128);
    let sum = inertia + cognitive + social + back;
    assert(-0x20_0000_0000 * 16 <= sum <= 0x20_0000_0000 * 16);
    let s = clamp_wide(sum);
    let total = pull(c, 1000, s as i128);
    clamp(total as i64, TRANSLATION_LIMIT)
}

/// A weight times a draw, both in thousandths.
fn scaled(w: i64, r: i64) -> (s: i64)
    requires
        0 <= w <= 4000,
        0 <= r <= 1000,
{
    assert(0 <= w * r <= 4000 * 1000) by (nonlinear_arith)
        requires 0 <= w <= 4000, 0 <= r <= 1000;
    w * r / 1000
}

fn clamp_wide(v: i128) -> (r: i128)
    ensures
        r == clamp_wide_spec(v as int),
        -0x20_0000_0000 <= r <= 0x20_0000_0000,
{
    if v > 0x20_0000_0000 { 0x20_0000_0000 } else if v < -0x20_0000_0000 { -0x20_0000_0000 } else { v }
}

/// Moves one particle: new velocity from inertia and the three pulls, and a
/// rotation turned toward the three attractors by normalized interpolation.
fn move_particle(p: &Particle, global: &Transform, ws: (i64, i64, i64, i64, i64), rng: &mut StdRng) -> (r: Particle)
    requires
        p.position.wf(),
        p.velocity.within(TRANSLATION_LIMIT as int),
        p.spin.wf(),
        p.initial.wf(),
        p.best.transform.wf(),
        global.wf(),
        0 <= ws.0 <= 4000 && 0 <= ws.1 <= 4000 && 0 <= ws.2 <= 4000 && 0 <= ws.3 <= 4000 && 0 <= ws.4 <= 4000,
    ensures
        r.position.wf(),
        r.velocity.within(TRANSLATION_LIMIT as int),
        r.spin.wf(),
        r.initial == p.initial,
        r.best == p.best,
{
    let rs = (draw_permille(rng), draw_permille(rng), draw_permille(rng));
    let x = p.position.translation;
    let pb = p.best.transform.translation;
    let gb = global.translation;
    let x0 = p.initial.translation;
    let v = Vec3 {
        x: velocity_axis(ws, rs, p.velocity.x, x.x, pb.x, gb.x, x0.x),
        y: velocity_axis(ws, rs, p.velocity.y, x.y, pb.y, gb.y, x0.y),
        z: velocity_axis(ws, rs, p.velocity.z, x.z, pb.z, gb.z, x0.z),
    };
    let translation = shift(&x, v.x, v.y, v.z);
    // Rotation: decayed previous turn, then pulls toward the attractors.
    let (_, w, c1, c2, ci) = ws;
    let q0 = p.position.rotation;
    let carried = nlerp(&Quat::identity(), &p.spin, w);
    let q = turn(&q0, &carried);
    let q = nlerp(&q, &p.best.transform.rotation, scaled(c1, rs.0));
    let q = nlerp(&q, &global.rotation, scaled(c2, rs.1));
    let q = nlerp(&q, &p.initial.rotation, scaled(ci, rs.2));
    let q0_inv = Quat { w: q0.w, x: -q0.x, y: -q0.y, z: -q0.z };
    assert(q0_inv.norm2() == q0.norm2()) by (nonlinear_arith)
        requires q0_inv.w == q0.w, q0_inv.x == -q0.x, q0_inv.y == -q0.y, q0_inv.z == -q0.z;
    let spin = turn(&q0_inv, &q);
    Particle { position: Transform { rotation: q, translation }, velocity: v, spin, initial: p.initial, best: p.best }
}

/// A particle is well-formed and remembers its true best.
pub open spec fn particle_ok(p: Particle, source: Seq<Point>, target: Seq<Point>) -> bool {
    &&& p.position.wf()
    &&& p.velocity.within(TRANSLATION_LIMIT as int)
    &&& p.spin.wf()
    &&& p.initial.wf()
    &&& scored(p.best, source, target)
}

/// Particle swarm optimization over rigid transforms. Each iteration
/// evaluates every particle, updates the personal and global bests, and
/// moves each particle by inertia and random pulls toward its best, the
/// global best and its start; rotations move by normalized interpolation.
/// Fails with `EmptyInput` on an empty cloud; otherwise returns the global
/// best, flagged as converged or not.
/// Returns the transform of least fitness among every candidate it
/// evaluated, with all those candidates, the starting pose first. A
/// `population_size` above `MAX_POPULATION` is taken as `MAX_POPULATION`.
pub fn particle_swarm_optimization(source: &Vec<Point>, target: &Vec<Point>, params: &PsoParams, initial: Option<Transform>) -> (r: Result<SearchOutcome, RegistrationError>)
    requires
        source@.len() <= MAX_POINTS,
        initial matches Some(t) ==> t.wf(),
    ensures
        r is Err <==> (source@.len() == 0 || target@.len() == 0),
        r is Err ==> r == Err::<SearchOutcome, RegistrationError>(RegistrationError::EmptyInput),
        r matches Ok(out) ==> searched(out, source@, target@, params.convergence_threshold),
        r matches Ok(out) ==> out.evaluated@[0] == seed_or_identity(initial),
        r matches Ok(out) ==> out.registration.fitness.total <= fitness_spec(seed_or_identity(initial), source@, target@),
{
    if source.len() == 0 || target.len() == 0 {
        return Err(RegistrationError::EmptyInput);
    }
    let mut rng = seeded_rng(params.seed);
    let seed = match initial {
        Some(t) => t,
        None => Transform::identity(),
    };
    let size = if params.population_size > MAX_POPULATION { MAX_POPULATION } else { params.population_size };
    let pop = initial_population(&mut rng, seed, size, params.translation_range);
    let out = evolve_pso(source, target, params, &pop, &mut rng);
    assert(pop@[0] == seed_or_identity(initial));
    assert(out.evaluated@[0] == pop@[0]);
    Ok(out)
}

/// The iterations of particle swarm optimization from given initial
/// positions. The result is the least fitness among every position
/// evaluated, which are returned with it, the initial ones first; so it is never worse
/// than any initial position.
pub fn evolve_pso(source: &Vec<Point>, target: &Vec<Point>, params: &PsoParams, initial: &Vec<Transform>, rng: &mut StdRng) -> (out: SearchOutcome)
    requires
        inputs_ok(source@, target@),
        0 < initial@.len() <= MAX_POPULATION,
        forall|i: int| 0 <= i < initial@.len() ==> #[trigger] initial@[i].wf(),
    ensures
        searched(out, source@, target@, params.convergence_threshold),
        at_most_all(out.registration.fitness.total as int, initial@, source@, target@),
        out.evaluated@.len() >= initial@.len(),
        forall|i: int| 0 <= i < initial@.len() ==> #[trigger] out.evaluated@[i] == initial@[i],
{
    let n = initial.len();
    let ws = (
        weight(params.constriction_factor),
        weight(params.inertia_weight),
        weight(params.cognitive_weight),
        weight(params.social_weight),
        weight(params.initial_weight),
    );
    let (scored_pop, mut global) = score_population(initial, source, target);
    let mut history = start_history(initial);
    let mut swarm: Vec<Particle> = Vec::new();
    let mut i: usize = 0;
    while i < n
        invariant
            n == initial@.len(),
            scored_pop@.len() == n,
            forall|j: int| 0 <= j < n ==> #[trigger] scored(scored_pop@[j], source@, target@),
            i <= n,
            swarm@.len() == i,
            forall|j: int| 0 <= j < i ==> #[trigger] particle_ok(swarm@[j], source@, target@),
        decreases n - i,
    {
        assert(scored(scored_pop@[i as int], source@, target@));
        let b = scored_pop[i];
        swarm.push(Particle { position: b.transform, velocity: Vec3 { x: 0, y: 0, z: 0 }, spin: Quat::identity(), initial: b.transform, best: b });
        i = i + 1;
    }
    let mut it: usize = 0;
    while it < params.iterations && !below_threshold(global.fitness, source.len(), params.convergence_threshold)
        invariant
            inputs_ok(source@, target@),
            0 < n <= MAX_POPULATION,
            swarm@.len() == n,
            0 <= ws.0 <= 4000 && 0 <= ws.1 <= 4000 && 0 <= ws.2 <= 4000 && 0 <= ws.3 <= 4000 && 0 <= ws.4 <= 4000,
            forall|j: int| 0 <= j < n ==> #[trigger] particle_ok(swarm@[j], source@, target@),
            scored(global, source@, target@),
            at_most_all(global.fitness as int, initial@, source@, target@),
            best_of(global, history@, source@, target@),
            history@.len() >= initial@.len(),
            forall|i: int| 0 <= i < initial@.len() ==> #[trigger] history@[i] == initial@[i],
        decreases params.iterations - it,
    {
        // Move every particle, then evaluate the new positions together.
        let mut moved: Vec<Particle> = Vec::new();
        let mut positions: Vec<Transform> = Vec::new();
        let mut k: usize = 0;
        while k < n
            invariant
                swarm@.len() == n,
                0 <= ws.0 <= 4000 && 0 <= ws.1 <= 4000 && 0 <= ws.2 <= 4000 && 0 <= ws.3 <= 4000 && 0 <= ws.4 <= 4000,
                forall|j: int| 0 <= j < n ==> #[trigger] particle_ok(swarm@[j], source@, target@),
                scored(global, source@, target@),
                k <= n,
                moved@.len() == k,
                positions@.len() == k,
                forall|j: int| 0 <= j < k ==> #[trigger] particle_ok(moved@[j], source@, target@),
                forall|j: int| 0 <= j < k ==> #[trigger] positions@[j] == moved@[j].position,
            decreases n - k,
        {
            assert(particle_ok(swarm@[k as int], source@, target@));
            let p = move_particle(&swarm[k], &global.transform, ws, rng);
            positions.push(p.position);
            moved.push(p);
            k = k + 1;
        }
        assert forall|j: int| 0 <= j < n implies #[trigger] positions@[j].wf() by {
            assert(particle_ok(moved@[j], source@, target@));
        }
        let fits = evaluate_all(&positions, source, target);
        // The global best, as a reduction over the new positions.
        let k = argmin(&fits);
        assert(positions@[k as int].wf());
        let champion = Individual { transform: positions[k], fitness: fits[k] };
        assert forall|j: int| 0 <= j < positions@.len() implies champion.fitness <= #[trigger] crate::correspond::fitness_spec(positions@[j], source@, target@) by {
            assert(fits@[j] == crate::correspond::fitness_spec(positions@[j], source@, target@));
        }
        assert(positions@[k as int] == champion.transform);
        global = absorb(global, &mut history, &positions, champion, source, target);
        // Personal bests.
        let mut next: Vec<Particle> = Vec::new();
        let mut k: usize = 0;
        while k < n
            invariant
                moved@.len() == n,
                positions@.len() == n,
                fits@.len() == n,
                forall|j: int| 0 <= j < n ==> #[trigger] particle_ok(moved@[j], source@, target@),
                forall|j: int| 0 <= j < n ==> #[trigger] positions@[j] == moved@[j].position,
                forall|j: int| 0 <= j < n ==> #[trigger] fits@[j] == crate::correspond::fitness_spec(positions@[j], source@, target@),
                scored(global, source@, target@),
                at_most_all(global.fitness as int, initial@, source@, target@),
                k <= n,
                next@.len() == k,
                forall|j: int| 0 <= j < k ==> #[trigger] particle_ok(next@[j], source@, target@),
            decreases n - k,
        {
            assert(particle_ok(moved@[k as int], source@, target@));
            assert(fits@[k as int] == crate::correspond::fitness_spec(positions@[k as int], source@, target@));
            let mut p = moved[k];
            let here = Individual { transform: p.position, fitness: fits[k] };
            p.best = keep_better(p.best, here);
            next.push(p);
            k = k + 1;
        }
        swarm = next;
        it = it + 1;
    }
    SearchOutcome { registration: report(global, source.len(), params.convergence_threshold), evaluated: history }
}

} // verus!
