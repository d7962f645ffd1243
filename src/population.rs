use vstd::prelude::*;
use rand::rngs::StdRng;
use rayon::iter::{IntoParallelRefIterator, ParallelIterator};
use crate::correspond::{below_threshold, cloud_ok, converges, fitness_spec, fitness_total, MeanSquared};
use crate::point::{Point, Vec3, TRANSLATION_LIMIT};
use crate::arith::floor_div;
use crate::icp::{solved, Registration};
use crate::random::{draw, draw_index, draw_permille};
use crate::rotation::{
    compose_rotations, normalize, normalize_spec, product, quat_dot, Quat, QUAT_ONE, RAW_QUAT_LIMIT,
};
use crate::transform::{clamp, clamp_translation_spec, Transform};

verus! {

/// A candidate transform with its fitness.
#[derive(Debug, Clone, Copy, PartialEq, Eq, Structural)]
pub struct Individual {
    pub transform: Transform,
    pub fitness: u128,
}

/// `ind` is well-formed and carries its true fitness.
pub open spec fn scored(ind: Individual, source: Seq<Point>, target: Seq<Point>) -> bool {
    ind.transform.wf() && ind.fitness == fitness_spec(ind.transform, source, target)
}

/// The clouds a solver works on, after the empty check.
pub open spec fn inputs_ok(source: Seq<Point>, target: Seq<Point>) -> bool {
    cloud_ok(source) && target.len() > 0
}

/// `f` is no worse than any member of `pop`.
pub open spec fn at_most_all(f: int, pop: Seq<Transform>, source: Seq<Point>, target: Seq<Point>) -> bool {
    forall|i: int| 0 <= i < pop.len() ==> f <= #[trigger] fitness_spec(pop[i], source, target)
}

/// Relies on rayon's indexed `par_iter().map(..).collect()` into a `Vec`,
/// which keeps the length and the order of the items; each item is the
/// library's own `fitness_total` of the candidate.
#[verifier::external_body]
pub(crate) fn evaluate_all(cands: &Vec<Transform>, source: &Vec<Point>, target: &Vec<Point>) -> (r: Vec<u128>)
    requires
        inputs_ok(source@, target@),
        forall|i: int| 0 <= i < cands@.len() ==> #[trigger] cands@[i].wf(),
    ensures
        r@.len() == cands@.len(),
        forall|i: int| 0 <= i < r@.len() ==> #[trigger] r@[i] == fitness_spec(cands@[i], source@, target@),
{
    cands.par_iter().map(|t| fitness_total(t, source, target)).collect()
}

/// Index of the least value, the earliest on a tie.
pub fn argmin(fits: &Vec<u128>) -> (r: usize)
    requires
        fits@.len() > 0,
    ensures
        r < fits@.len(),
        forall|j: int| 0 <= j < fits@.len() ==> fits@[r as int] <= #[trigger] fits@[j],
        forall|j: int| 0 <= j < r ==> fits@[r as int] < #[trigger] fits@[j],
{
    let mut best: usize = 0;
    let mut i: usize = 1;
    while i < fits.len()
        invariant
            1 <= i <= fits@.len(),
            best < i,
            forall|j: int| 0 <= j < i ==> fits@[best as int] <= #[trigger] fits@[j],
            forall|j: int| 0 <= j < best ==> fits@[best as int] < #[trigger] fits@[j],
        decreases fits@.len() - i,
    {
        if fits[i] < fits[best] {
            best = i;
        }
        i = i + 1;
    }
    best
}

/// Evaluates a population and returns its members with their fitness, and
/// the best of them.
pub fn score_population(pop: &Vec<Transform>, source: &Vec<Point>, target: &Vec<Point>) -> (r: (Vec<Individual>, Individual))
    requires
        inputs_ok(source@, target@),
        pop@.len() > 0,
        forall|i: int| 0 <= i < pop@.len() ==> #[trigger] pop@[i].wf(),
    ensures
        r.0@.len() == pop@.len(),
        forall|i: int| 0 <= i < pop@.len() ==> #[trigger] r.0@[i].transform == pop@[i] && scored(r.0@[i], source@, target@),
        scored(r.1, source@, target@),
        at_most_all(r.1.fitness as int, pop@, source@, target@),
        exists|i: int| 0 <= i < pop@.len() && #[trigger] pop@[i] == r.1.transform,
{
    let fits = evaluate_all(pop, source, target);
    let b = argmin(&fits);
    let mut out: Vec<Individual> = Vec::new();
    let mut i: usize = 0;
    while i < pop.len()
        invariant
            fits@.len() == pop@.len(),
            i <= pop@.len(),
            out@.len() == i,
            forall|j: int| 0 <= j < pop@.len() ==> #[trigger] pop@[j].wf(),
            forall|j: int| 0 <= j < fits@.len() ==> #[trigger] fits@[j] == fitness_spec(pop@[j], source@, target@),
            forall|j: int| 0 <= j < i ==> #[trigger] out@[j].transform == pop@[j] && scored(out@[j], source@, target@),
        decreases pop@.len() - i,
    {
        out.push(Individual { transform: pop[i], fitness: fits[i] });
        i = i + 1;
    }
    let best = Individual { transform: pop[b], fitness: fits[b] };
    assert(pop@[b as int] == best.transform);
    assert forall|i: int| 0 <= i < pop@.len() implies best.fitness <= #[trigger] fitness_spec(pop@[i], source@, target@) by {
        assert(fits@[i] == fitness_spec(pop@[i], source@, target@));
    }
    (out, best)
}

/// The better of the recorded best and a candidate; the record wins a tie.
pub fn keep_better(best: Individual, cand: Individual) -> (r: Individual)
    ensures
        r == (if cand.fitness < best.fitness { cand } else { best }),
        r.fitness <= best.fitness,
        r.fitness <= cand.fitness,
{
    if cand.fitness < best.fitness { cand } else { best }
}

/// A value drawn from `[-range, range]`, with `range` held to the search box.
pub fn draw_offset(rng: &mut StdRng, range: i64) -> (r: i64)
    ensures
        -TRANSLATION_LIMIT <= r <= TRANSLATION_LIMIT,
{
    let lim = clamp(range, TRANSLATION_LIMIT);
    let l = if lim < 0 { -lim } else { lim };
    draw(rng, -l, l)
}

/// A quaternion from components drawn within `[-spread, spread]` about `base`
/// (at most `QUAT_ONE` each), normalized; the identity when all vanish.
pub fn draw_rotation(rng: &mut StdRng, base: i64, spread: i64) -> (r: Quat)
    ensures
        r.wf(),
{
    let s = clamp(spread, QUAT_ONE);
    let s = if s < 0 { -s } else { s };
    let b = clamp(base, QUAT_ONE);
    let w = b + draw(rng, -s, s);
    let x = draw(rng, -s, s);
    let y = draw(rng, -s, s);
    let z = draw(rng, -s, s);
    if w == 0 && x == 0 && y == 0 && z == 0 {
        Quat::identity()
    } else {
        normalize(w, x, y, z)
    }
}

/// A random transform: translation uniform in `[-range, range]` per axis,
/// rotation a normalized quaternion of uniform components.
pub fn random_transform(rng: &mut StdRng, range: i64) -> (r: Transform)
    ensures
        r.wf(),
{
    let x = draw_offset(rng, range);
    let y = draw_offset(rng, range);
    let z = draw_offset(rng, range);
    let q = draw_rotation(rng, 0, QUAT_ONE);
    Transform { rotation: q, translation: Vec3 { x, y, z } }
}

/// The initial population: `seed` first, then `size - 1` random transforms.
pub fn initial_population(rng: &mut StdRng, seed: Transform, size: usize, range: i64) -> (r: Vec<Transform>)
    requires
        seed.wf(),
    ensures
        r@.len() == if size == 0 { 1 } else { size as int },
        r@[0] == seed,
        forall|i: int| 0 <= i < r@.len() ==> #[trigger] r@[i].wf(),
{
    let mut pop: Vec<Transform> = Vec::new();
    pop.push(seed);
    while pop.len() < size
        invariant
            1 <= pop@.len(),
            pop@.len() <= if size == 0 { 1 } else { size as int },
            pop@[0] == seed,
            forall|i: int| 0 <= i < pop@.len() ==> #[trigger] pop@[i].wf(),
        decreases size - pop@.len(),
    {
        let t = random_transform(rng, range);
        pop.push(t);
    }
    pop
}

/// A small rotation: identity perturbed by at most `step` per component.
pub fn small_rotation(rng: &mut StdRng, step: i64) -> (r: Quat)
    ensures
        r.wf(),
{
    draw_rotation(rng, QUAT_ONE, step)
}

/// `q` turned further by `d`.
pub fn turn(q: &Quat, d: &Quat) -> (r: Quat)
    requires
        q.wf(),
        d.wf(),
    ensures
        r == turn_spec(*q, *d),
        r.wf(),
{
    compose_rotations(d, q)
}

/// `q` turned further by `d`: their product, normalized.
pub open spec fn turn_spec(q: Quat, d: Quat) -> Quat {
    let p = product(d, q);
    normalize_spec(p.0, p.1, p.2, p.3)
}

/// A translation moved by `d` on each axis and held to the search box.
pub fn shift(t: &Vec3, dx: i64, dy: i64, dz: i64) -> (r: Vec3)
    requires
        t.within(TRANSLATION_LIMIT as int),
        -TRANSLATION_LIMIT <= dx <= TRANSLATION_LIMIT,
        -TRANSLATION_LIMIT <= dy <= TRANSLATION_LIMIT,
        -TRANSLATION_LIMIT <= dz <= TRANSLATION_LIMIT,
    ensures
        r == clamp_translation_spec(t.x + dx, t.y + dy, t.z + dz),
        r.within(TRANSLATION_LIMIT as int),
{
    Vec3 {
        x: clamp(t.x + dx, TRANSLATION_LIMIT),
        y: clamp(t.y + dy, TRANSLATION_LIMIT),
        z: clamp(t.z + dz, TRANSLATION_LIMIT),
    }
}

/// `p * u + q * t`, with `q` negated when `flip` holds.
pub open spec fn mix_spec(p: int, q: int, flip: bool, u: int, t: int) -> int {
    p * u + (if flip { -q } else { q }) * t
}

/// `alpha` held to `[0, 1000]`.
pub open spec fn fraction(alpha: int) -> int {
    if alpha < 0 { 0 } else if alpha > 1000 { 1000 } else { alpha }
}

/// Normalized interpolation from `a` toward `b` by `alpha` thousandths:
/// `b` is first negated when it points away from `a`, so that the blend
/// takes the shorter way round; `a` itself should the blend vanish.
pub open spec fn nlerp_spec(a: Quat, b: Quat, alpha: int) -> Quat {
    let t = fraction(alpha);
    let flip = a.w * b.w + a.x * b.x + a.y * b.y + a.z * b.z < 0;
    let w = mix_spec(a.w as int, b.w as int, flip, 1000 - t, t);
    let x = mix_spec(a.x as int, b.x as int, flip, 1000 - t, t);
    let y = mix_spec(a.y as int, b.y as int, flip, 1000 - t, t);
    let z = mix_spec(a.z as int, b.z as int, flip, 1000 - t, t);
    if w == 0 && x == 0 && y == 0 && z == 0 { a } else { normalize_spec(w, x, y, z) }
}

fn mix(p: i64, q: i64, flip: bool, u: i64, t: i64) -> (r: i64)
    requires
        -QUAT_ONE <= p <= QUAT_ONE,
        -QUAT_ONE <= q <= QUAT_ONE,
        0 <= u <= 1000,
        0 <= t <= 1000,
    ensures
        r == mix_spec(p as int, q as int, flip, u as int, t as int),
        -RAW_QUAT_LIMIT <= r <= RAW_QUAT_LIMIT,
{
    let qq = if flip { -q } else { q };
    assert(-0x4_0000_0000 <= p * u <= 0x4_0000_0000 && -0x4_0000_0000 <= qq * t <= 0x4_0000_0000) by (nonlinear_arith)
        requires -0x100_0000 <= p <= 0x100_0000, -0x100_0000 <= qq <= 0x100_0000, 0 <= u <= 1000, 0 <= t <= 1000;
    p * u + qq * t
}

/// Normalized interpolation from `a` toward `b` by `alpha` thousandths,
/// taking the shorter way round; `a` when the blend vanishes.
pub fn nlerp(a: &Quat, b: &Quat, alpha: i64) -> (r: Quat)
    requires
        a.wf(),
        b.wf(),
    ensures
        r == nlerp_spec(*a, *b, alpha as int),
        r.wf(),
{
    let t = if alpha < 0 { 0 } else if alpha > 1000 { 1000 } else { alpha };
    let sg: bool = quat_dot(a, b) < 0;
    let u = 1000 - t;
    let w = mix(a.w, b.w, sg, u, t);
    let x = mix(a.x, b.x, sg, u, t);
    let y = mix(a.y, b.y, sg, u, t);
    let z = mix(a.z, b.z, sg, u, t);
    if w == 0 && x == 0 && y == 0 && z == 0 {
        *a
    } else {
        normalize(w, x, y, z)
    }
}

/// A rate in thousandths fires on a draw below it.
pub fn chance(rng: &mut StdRng, permille: i64) -> (r: bool)
    ensures
        permille > 1000 ==> r,
        permille <= 0 ==> !r,
{
    draw_permille(rng) < permille
}

/// The registration that reports a scored individual.
pub fn report(best: Individual, n: usize, threshold: u128) -> (r: Registration)
    requires
        0 < n <= crate::point::MAX_POINTS,
    ensures
        r.transform == best.transform,
        r.fitness == (MeanSquared { total: best.fitness, count: n as u64 }),
        r.converged == converges(best.fitness as int, n as int, threshold as int),
{
    Registration {
        transform: best.transform,
        fitness: MeanSquared { total: best.fitness, count: n as u64 },
        converged: below_threshold(best.fitness, n, threshold),
    }
}

/// The fittest of the picked members, the earliest pick on a tie.
pub fn fittest_of(pop: &Vec<Individual>, picks: &Vec<usize>) -> (r: usize)
    requires
        picks@.len() > 0,
        forall|k: int| 0 <= k < picks@.len() ==> #[trigger] picks@[k] < pop@.len(),
    ensures
        picks@.contains(r),
        forall|k: int| 0 <= k < picks@.len() ==> pop@[r as int].fitness <= #[trigger] pop@[picks@[k] as int].fitness,
{
    let mut best = picks[0];
    let mut i: usize = 1;
    assert(picks@.subrange(0, 1)[0] == best);
    while i < picks.len()
        invariant
            1 <= i <= picks@.len(),
            forall|k: int| 0 <= k < picks@.len() ==> #[trigger] picks@[k] < pop@.len(),
            picks@.subrange(0, i as int).contains(best),
            forall|k: int| 0 <= k < i ==> pop@[best as int].fitness <= #[trigger] pop@[picks@[k] as int].fitness,
        decreases picks@.len() - i,
    {
        let j = picks[i];
        let ghost old_best = best;
        if pop[j].fitness < pop[best].fitness {
            best = j;
        }
        proof {
            if best == j {
                assert(picks@.subrange(0, i + 1)[i as int] == j);
            } else {
                let k0 = choose|k0: int| 0 <= k0 < i && picks@.subrange(0, i as int)[k0] == old_best;
                assert(picks@.subrange(0, i + 1)[k0] == best);
            }
        }
        i = i + 1;
    }
    assert(picks@.subrange(0, picks@.len() as int) =~= picks@);
    best
}

/// A tournament: `k` (at least one) members drawn at random from `pool`,
/// and the fittest of them.
pub fn tournament(rng: &mut StdRng, pop: &Vec<Individual>, pool: &Vec<usize>, k: usize) -> (r: usize)
    requires
        0 < pool@.len() <= MAX_POPULATION,
        forall|i: int| 0 <= i < pool@.len() ==> #[trigger] pool@[i] < pop@.len(),
    ensures
        pool@.contains(r),
{
    let mut picks: Vec<usize> = Vec::new();
    while picks.len() < k || picks.len() == 0
        invariant
            0 < pool@.len() <= MAX_POPULATION,
            forall|i: int| 0 <= i < pool@.len() ==> #[trigger] pool@[i] < pop@.len(),
            forall|i: int| 0 <= i < picks@.len() ==> #[trigger] pool@.contains(picks@[i]),
            picks@.len() <= if k == 0 { 1 } else { k as int },
        decreases (if k == 0 { 1 } else { k as int }) - picks@.len(),
    {
        let d = draw_index(rng, pool.len());
        assert(pool@[d as int] == pool@[d as int]);
        picks.push(pool[d]);
    }
    assert forall|i: int| 0 <= i < picks@.len() implies #[trigger] picks@[i] < pop@.len() by {
        assert(pool@.contains(picks@[i]));
    }
    let r = fittest_of(pop, &picks);
    assert(pool@.contains(r));
    r
}

/// The midpoint of two translations, rounded down.
pub fn midpoint(a: &Vec3, b: &Vec3) -> (r: Vec3)
    requires
        a.within(TRANSLATION_LIMIT as int),
        b.within(TRANSLATION_LIMIT as int),
    ensures
        r.within(TRANSLATION_LIMIT as int),
        r.x == (a.x + b.x) / 2,
        r.y == (a.y + b.y) / 2,
        r.z == (a.z + b.z) / 2,
{
    Vec3 {
        x: floor_div(a.x as i128 + b.x as i128, 2) as i64,
        y: floor_div(a.y as i128 + b.y as i128, 2) as i64,
        z: floor_div(a.z as i128 + b.z as i128, 2) as i64,
    }
}

/// Largest population a solver accepts.
pub const MAX_POPULATION: usize = 0x10_0000;

/// Number of marks set among the first `k`.
pub open spec fn count_taken(s: Seq<bool>, k: int) -> int
    decreases k,
{
    if k <= 0 { 0 } else { count_taken(s, k - 1) + if s[k - 1] { 1int } else { 0int } }
}

proof fn lemma_count_none(s: Seq<bool>, k: int)
    requires
        0 <= k <= s.len(),
        forall|j: int| 0 <= j < s.len() ==> !#[trigger] s[j],
    ensures
        count_taken(s, k) == 0,
    decreases k,
{
    if k > 0 {
        lemma_count_none(s, k - 1);
    }
}

proof fn lemma_count_all(s: Seq<bool>, k: int)
    requires
        0 <= k <= s.len(),
        forall|j: int| 0 <= j < k ==> #[trigger] s[j],
    ensures
        count_taken(s, k) == k,
    decreases k,
{
    if k > 0 {
        lemma_count_all(s, k - 1);
    }
}

proof fn lemma_count_update(s: Seq<bool>, i: int, k: int)
    requires
        0 <= i < s.len(),
        0 <= k <= s.len(),
        !s[i],
    ensures
        count_taken(s.update(i, true), k) == count_taken(s, k) + if i < k { 1int } else { 0int },
    decreases k,
{
    if k > 0 {
        lemma_count_update(s, i, k - 1);
    }
}

/// Truncation selection: the `n` fittest members of `merged`, as indices in
/// the order they were taken. Every member kept is at least as fit as every
/// member dropped, and no member is kept twice.
pub fn truncate_best(merged: &Vec<Individual>, n: usize) -> (r: Vec<usize>)
    requires
        n <= merged@.len(),
    ensures
        r@.len() == n,
        forall|k: int| 0 <= k < n ==> #[trigger] r@[k] < merged@.len(),
        forall|k: int, l: int| 0 <= k < l < n ==> #[trigger] r@[k] != #[trigger] r@[l],
        forall|j: int, k: int| 0 <= j < merged@.len() && 0 <= k < n && !r@.contains(j as usize) ==>
            #[trigger] merged@[r@[k] as int].fitness <= #[trigger] merged@[j].fitness,
        forall|k: int, l: int| 0 <= k < l < n ==>
            #[trigger] merged@[r@[k] as int].fitness <= #[trigger] merged@[r@[l] as int].fitness,
{
    let m = merged.len();
    let mut taken: Vec<bool> = Vec::new();
    while taken.len() < m
        invariant
            taken@.len() <= m,
            m == merged@.len(),
            forall|j: int| 0 <= j < taken@.len() ==> !#[trigger] taken@[j],
        decreases m - taken@.len(),
    {
        taken.push(false);
    }
    let mut out: Vec<usize> = Vec::new();
    proof {
        lemma_count_none(taken@, m as int);
    }
    while out.len() < n
        invariant
            n <= m,
            m == merged@.len(),
            taken@.len() == m,
            out@.len() <= n,
            count_taken(taken@, m as int) == out@.len(),
            forall|k: int| 0 <= k < out@.len() ==> #[trigger] out@[k] < m && taken@[out@[k] as int],
            forall|k: int, l: int| 0 <= k < l < out@.len() ==> #[trigger] out@[k] != #[trigger] out@[l],
            forall|j: int| 0 <= j < m && taken@[j] ==> #[trigger] out@.contains(j as usize),
            forall|j: int, k: int| 0 <= j < m && !taken@[j] && 0 <= k < out@.len() ==>
                #[trigger] merged@[out@[k] as int].fitness <= #[trigger] merged@[j].fitness,
            forall|k: int, l: int| 0 <= k < l < out@.len() ==>
                #[trigger] merged@[out@[k] as int].fitness <= #[trigger] merged@[out@[l] as int].fitness,
        decreases n - out@.len(),
    {
        // The fittest member not yet taken.
        let mut pick: usize = m;
        let mut j: usize = 0;
        while j < m
            invariant
                m == merged@.len(),
                taken@.len() == m,
                j <= m,
                pick == m || (pick < j && !taken@[pick as int]),
                pick < m ==> forall|i: int| 0 <= i < j && !taken@[i] ==> merged@[pick as int].fitness <= #[trigger] merged@[i].fitness,
                pick == m ==> forall|i: int| 0 <= i < j ==> #[trigger] taken@[i],
            decreases m - j,
        {
            if !taken[j] && (pick == m || merged[j].fitness < merged[pick].fitness) {
                pick = j;
            }
            j = j + 1;
        }
        proof {
            // Were every member taken, `n <= m` members would be out already.
            if pick == m {
                lemma_count_all(taken@, m as int);
            }
        }
        let ghost before = taken@;
        let ghost out_before = out@;
        taken.set(pick, true);
        out.push(pick);
        proof {
            assert forall|k: int, l: int| 0 <= k < l < out@.len() implies
                #[trigger] merged@[out@[k] as int].fitness <= #[trigger] merged@[out@[l] as int].fitness by {
                if l == out@.len() - 1 {
                    assert(out@[k] == out_before[k]);
                    assert(!before[pick as int]);
                    assert(merged@[out_before[k] as int].fitness <= merged@[pick as int].fitness);
                } else {
                    assert(out@[k] == out_before[k] && out@[l] == out_before[l]);
                }
            }
            lemma_count_update(before, pick as int, m as int);
            assert(taken@ == before.update(pick as int, true));
            assert forall|k: int| 0 <= k < out@.len() implies #[trigger] out@[k] < m && taken@[out@[k] as int] by {
                if k < out@.len() - 1 {
                    assert(out@[k] == out_before[k]);
                }
            }
            assert forall|k: int, l: int| 0 <= k < l < out@.len() implies #[trigger] out@[k] != #[trigger] out@[l] by {
                if l == out@.len() - 1 {
                    assert(taken@[out_before[k] as int] == before[out_before[k] as int]);
                    assert(before[out_before[k] as int]);
                }
            }
            assert forall|j: int| 0 <= j < m && taken@[j] implies #[trigger] out@.contains(j as usize) by {
                if j == pick as int {
                    assert(out@[out@.len() - 1] == pick);
                } else {
                    assert(before[j]);
                    assert(out_before.contains(j as usize));
                    let k = choose|k: int| 0 <= k < out_before.len() && out_before[k] == j as usize;
                    assert(out@[k] == j as usize);
                }
            }
        }
    }
    proof {
        assert forall|j: int, k: int| 0 <= j < merged@.len() && 0 <= k < n && !out@.contains(j as usize) implies
            #[trigger] merged@[out@[k] as int].fitness <= #[trigger] merged@[j].fitness by {
            assert(!taken@[j]);
        }
    }
    out
}

/// A population search's result, and every candidate it evaluated, in the
/// order it evaluated them: the initial population first.
#[derive(Debug, Clone, PartialEq)]
pub struct SearchOutcome {
    pub registration: Registration,
    pub evaluated: Vec<Transform>,
}

/// `best` is a scored member of `hist`, no worse than any member of it.
pub open spec fn best_of(best: Individual, hist: Seq<Transform>, source: Seq<Point>, target: Seq<Point>) -> bool {
    &&& scored(best, source, target)
    &&& forall|i: int| 0 <= i < hist.len() ==> #[trigger] hist[i].wf()
    &&& at_most_all(best.fitness as int, hist, source, target)
    &&& exists|i: int| 0 <= i < hist.len() && #[trigger] hist[i] == best.transform
}

/// `out` reports, as solved, the least fitness over every candidate it
/// evaluated, and that candidate is one of them.
pub open spec fn searched(out: SearchOutcome, source: Seq<Point>, target: Seq<Point>, threshold: u128) -> bool {
    &&& solved(out.registration, source, target, threshold)
    &&& out.evaluated@.len() > 0
    &&& at_most_all(out.registration.fitness.total as int, out.evaluated@, source, target)
    &&& exists|i: int| 0 <= i < out.evaluated@.len() && #[trigger] out.evaluated@[i] == out.registration.transform
}

/// Records an evaluated batch, whose fittest member is `champion`, and
/// returns the better of the recorded best and that champion.
pub fn absorb(
    best: Individual,
    history: &mut Vec<Transform>,
    batch: &Vec<Transform>,
    champion: Individual,
    source: &Vec<Point>,
    target: &Vec<Point>,
) -> (r: Individual)
    requires
        best_of(best, old(history)@, source@, target@),
        best_of(champion, batch@, source@, target@),
    ensures
        final(history)@ == old(history)@ + batch@,
        best_of(r, final(history)@, source@, target@),
        r == (if champion.fitness < best.fitness { champion } else { best }),
{
    let ghost h0 = history@;
    let r = keep_better(best, champion);
    let mut i: usize = 0;
    while i < batch.len()
        invariant
            i <= batch@.len(),
            history@ == h0 + batch@.subrange(0, i as int),
        decreases batch@.len() - i,
    {
        history.push(batch[i]);
        i = i + 1;
        assert(history@ =~= h0 + batch@.subrange(0, i as int));
    }
    assert(batch@.subrange(0, batch@.len() as int) =~= batch@);
    let ghost h = history@;
    assert forall|i: int| 0 <= i < h.len() implies #[trigger] h[i].wf() && r.fitness <= fitness_spec(h[i], source@, target@) by {
        if i < h0.len() {
            assert(h[i] == h0[i]);
        } else {
            assert(h[i] == batch@[i - h0.len()]);
        }
    }
    proof {
        if champion.fitness < best.fitness {
            let j = choose|j: int| 0 <= j < batch@.len() && #[trigger] batch@[j] == champion.transform;
            assert(h[h0.len() + j] == champion.transform);
        } else {
            let j = choose|j: int| 0 <= j < h0.len() && #[trigger] h0[j] == best.transform;
            assert(h[j] == best.transform);
        }
    }
    r
}

/// The history that starts a search: the initial population.
pub fn start_history(initial: &Vec<Transform>) -> (r: Vec<Transform>)
    ensures
        r@ == initial@,
{
    let mut h: Vec<Transform> = Vec::new();
    let mut i: usize = 0;
    while i < initial.len()
        invariant
            i <= initial@.len(),
            h@ == initial@.subrange(0, i as int),
        decreases initial@.len() - i,
    {
        h.push(initial[i]);
        i = i + 1;
        assert(h@ =~= initial@.subrange(0, i as int));
    }
    assert(initial@.subrange(0, initial@.len() as int) =~= initial@);
    h
}

} // verus!
