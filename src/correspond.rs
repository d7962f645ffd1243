use vstd::prelude::*;
use crate::point::{
    sq_dist, squared_distance, Point, Vec3, AXIS_SQ_LIMIT, MAX_POINTS,
    PLACED_LIMIT,
};
use crate::index::SpatialIndex;
use crate::rotation::{mat, Quat, QUAT_ONE};
use crate::transform::{apply_spec, place_spec, Transform};

verus! {

/// A placed source point paired with its nearest target point.
#[derive(Debug, Clone, Copy, PartialEq, Eq, Structural)]
pub struct Correspondence {
    pub placed: Vec3,
    pub matched: Point,
    pub index: usize,
}

/// Index of the point nearest to `q` among the first `k` points of `t`; the
/// earliest one wins a tie.
pub open spec fn nearest_in(q: Vec3, t: Seq<Point>, k: int) -> int
    decreases k,
{
    if k <= 1 {
        0
    } else {
        let j = nearest_in(q, t, k - 1);
        if sq_dist(q, t[k - 1]) < sq_dist(q, t[j]) { k - 1 } else { j }
    }
}

/// Index of the point of `t` nearest to `q`, the earliest on a tie.
pub open spec fn nearest_index(q: Vec3, t: Seq<Point>) -> int {
    nearest_in(q, t, t.len() as int)
}

/// Squared distance from `q` to its nearest point of `t`.
pub open spec fn min_sq(q: Vec3, t: Seq<Point>) -> int {
    sq_dist(q, t[nearest_index(q, t)])
}

/// Sum of the squared distances of the first `k` placed points to their nearest targets.
pub open spec fn residual_sum(placed: Seq<Vec3>, t: Seq<Point>, k: int) -> int
    decreases k,
{
    if k <= 0 { 0 } else { residual_sum(placed, t, k - 1) + min_sq(placed[k - 1], t) }
}

/// Sum of the squared distances of the first `k` pairs.
pub open spec fn pair_sum(c: Seq<Correspondence>, k: int) -> int
    decreases k,
{
    if k <= 0 { 0 } else { pair_sum(c, k - 1) + sq_dist(c[k - 1].placed, c[k - 1].matched) }
}

/// What `find_correspondences` returns.
pub open spec fn correspondences_spec(placed: Seq<Vec3>, t: Seq<Point>) -> Seq<Correspondence> {
    Seq::new(placed.len(), |i: int| Correspondence {
        placed: placed[i],
        matched: t[nearest_index(placed[i], t)],
        index: nearest_index(placed[i], t) as usize,
    })
}

/// A mean squared distance, held exactly as the fraction `total / count`.
#[derive(Debug, Clone, Copy, PartialEq, Eq, Structural)]
pub struct MeanSquared {
    /// Sum of the squared distances.
    pub total: u128,
    /// Number of distances summed.
    pub count: u64,
}

/// The mean `total / count`, as a fraction.
pub open spec fn mean_of(total: int, count: int) -> MeanSquared {
    MeanSquared { total: total as u128, count: count as u64 }
}

impl MeanSquared {
    /// The mean, rounded down.
    pub fn floor(&self) -> (r: u128)
        requires
            self.count > 0,
        ensures
            r == self.total as int / self.count as int,
    {
        self.total / (self.count as u128)
    }

    /// Whether the mean lies below `threshold`, compared exactly.
    pub fn below(&self, threshold: u128) -> (r: bool)
        requires
            self.count > 0,
        ensures
            r == converges(self.total as int, self.count as int, threshold as int),
    {
        let q = self.total / (self.count as u128);
        proof {
            let (s, m, t) = (self.total as int, self.count as int, threshold as int);
            vstd::arithmetic::div_mod::lemma_fundamental_div_mod(s, m);
            let rem = s % m;
            assert(q < t <==> s < t * m) by (nonlinear_arith)
                requires s == m * q + rem, 0 <= rem < m, m > 0, q >= 0, t >= 0;
        }
        q < threshold
    }
}

/// Sum of the squared distances from the source placed by `tr` to the
/// nearest target points. The fitness every solver minimizes is this sum
/// over the number of source points; that number is fixed within a solve,
/// so comparing sums compares means.
pub open spec fn fitness_spec(tr: Transform, source: Seq<Point>, target: Seq<Point>) -> int {
    residual_sum(place_spec(tr, source), target, source.len() as int)
}

/// A sum of squared distances over `n` points whose mean lies below
/// `threshold`.
pub open spec fn converges(sum: int, n: int, threshold: int) -> bool {
    sum < threshold * n
}

/// Whether the mean of a sum over `n` points lies below `threshold`,
/// compared exactly.
pub fn below_threshold(sum: u128, n: usize, threshold: u128) -> (r: bool)
    requires
        n > 0,
    ensures
        r == converges(sum as int, n as int, threshold as int),
{
    let q = sum / (n as u128);
    proof {
        let (s, m, t) = (sum as int, n as int, threshold as int);
        vstd::arithmetic::div_mod::lemma_fundamental_div_mod(s, m);
        let rem = s % m;
        assert(q < t <==> s < t * m) by (nonlinear_arith)
            requires s == m * q + rem, 0 <= rem < m, m > 0, q >= 0, t >= 0;
    }
    q < threshold
}

/// Every placed point of a sequence is within `PLACED_LIMIT`.
pub open spec fn all_placed(s: Seq<Vec3>) -> bool {
    forall|i: int| 0 <= i < s.len() ==> #[trigger] s[i].within(PLACED_LIMIT as int)
}

/// A cloud that solvers accept as input: not empty, and not too large.
pub open spec fn cloud_ok(c: Seq<Point>) -> bool {
    0 < c.len() <= MAX_POINTS
}

/// The nearest index is a first minimizer.
pub proof fn lemma_nearest_in(q: Vec3, t: Seq<Point>, k: int)
    requires
        1 <= k <= t.len(),
    ensures
        0 <= nearest_in(q, t, k) < k,
        forall|j: int| 0 <= j < k ==> sq_dist(q, t[nearest_in(q, t, k)]) <= #[trigger] sq_dist(q, t[j]),
        forall|j: int| 0 <= j < nearest_in(q, t, k) ==> sq_dist(q, t[nearest_in(q, t, k)]) < #[trigger] sq_dist(q, t[j]),
    decreases k,
{
    if k > 1 {
        lemma_nearest_in(q, t, k - 1);
    }
}

pub proof fn lemma_pair_sum_matches(placed: Seq<Vec3>, t: Seq<Point>, k: int)
    requires
        0 <= k <= placed.len(),
    ensures
        pair_sum(correspondences_spec(placed, t), k) == residual_sum(placed, t, k),
    decreases k,
{
    if k > 0 {
        lemma_pair_sum_matches(placed, t, k - 1);
    }
}

/// Index of the target point nearest to `q`, the earliest on a tie.
pub fn nearest(target: &Vec<Point>, q: &Vec3) -> (r: usize)
    requires
        target@.len() > 0,
        q.within(PLACED_LIMIT as int),
    ensures
        r == nearest_index(*q, target@),
        r < target@.len(),
        forall|j: int| 0 <= j < target@.len() ==> sq_dist(*q, target@[r as int]) <= #[trigger] sq_dist(*q, target@[j]),
{
    let mut best: usize = 0;
    let mut best_d: u128 = squared_distance(q, &target[0]);
    let mut i: usize = 1;
    while i < target.len()
        invariant
            1 <= i <= target@.len(),
            q.within(PLACED_LIMIT as int),
            best == nearest_in(*q, target@, i as int),
            best < i,
            best_d == sq_dist(*q, target@[best as int]),
        decreases target@.len() - i,
    {
        let d = squared_distance(q, &target[i]);
        if d < best_d {
            best = i;
            best_d = d;
        }
        i = i + 1;
    }
    proof {
        lemma_nearest_in(*q, target@, target@.len() as int);
    }
    best
}

/// Pairs every placed source point with its nearest target point, querying
/// one spatial index built from the target.
pub fn find_correspondences(source: &Vec<Vec3>, target: &Vec<Point>) -> (r: Vec<Correspondence>)
    requires
        target@.len() > 0,
        all_placed(source@),
    ensures
        r@ == correspondences_spec(source@, target@),
{
    let index = SpatialIndex::build(target);
    let mut out: Vec<Correspondence> = Vec::new();
    let mut i: usize = 0;
    while i < source.len()
        invariant
            index.wf(),
            index.points@ == target@,
            i <= source@.len(),
            target@.len() > 0,
            all_placed(source@),
            out@.len() == i,
            forall|j: int| 0 <= j < i ==> out@[j] == correspondences_spec(source@, target@)[j],
        decreases source@.len() - i,
    {
        let p = source[i];
        assert(source@[i as int].within(PLACED_LIMIT as int));
        let k = index.nearest(&p);
        proof {
            lemma_nearest_in(p, target@, target@.len() as int);
        }
        out.push(Correspondence { placed: p, matched: target[k], index: k });
        i = i + 1;
    }
    assert(out@ =~= correspondences_spec(source@, target@));
    out
}

/// Sum of the squared distances of the pairs, exactly.
pub fn residual_total(pairs: &Vec<Correspondence>) -> (r: u128)
    requires
        pairs@.len() <= MAX_POINTS,
        forall|i: int| 0 <= i < pairs@.len() ==> #[trigger] pairs@[i].placed.within(PLACED_LIMIT as int),
    ensures
        r == pair_sum(pairs@, pairs@.len() as int),
{
    let mut sum: u128 = 0;
    let mut i: usize = 0;
    while i < pairs.len()
        invariant
            i <= pairs@.len() <= MAX_POINTS,
            forall|j: int| 0 <= j < pairs@.len() ==> #[trigger] pairs@[j].placed.within(PLACED_LIMIT as int),
            sum == pair_sum(pairs@, i as int),
            sum <= i * (3 * AXIS_SQ_LIMIT),
        decreases pairs@.len() - i,
    {
        let c = pairs[i];
        assert(pairs@[i as int].placed.within(PLACED_LIMIT as int));
        let d = squared_distance(&c.placed, &c.matched);
        assert(sum + d <= (i + 1) * (3 * AXIS_SQ_LIMIT) <= MAX_POINTS * (3 * AXIS_SQ_LIMIT)) by (nonlinear_arith)
            requires sum <= i * (3 * AXIS_SQ_LIMIT), d <= 3 * AXIS_SQ_LIMIT, i + 1 <= MAX_POINTS;
        sum = sum + d;
        i = i + 1;
    }
    sum
}

/// Mean squared distance of the pairs, exactly: the sum of their squared
/// distances over their number.
pub fn compute_residual_error(pairs: &Vec<Correspondence>) -> (r: MeanSquared)
    requires
        0 < pairs@.len() <= MAX_POINTS,
        forall|i: int| 0 <= i < pairs@.len() ==> #[trigger] pairs@[i].placed.within(PLACED_LIMIT as int),
    ensures
        r.total == pair_sum(pairs@, pairs@.len() as int),
        r.count == pairs@.len(),
{
    MeanSquared { total: residual_total(pairs), count: pairs.len() as u64 }
}

/// Total squared distance from the source placed by `transform` to the
/// nearest target points: the fitness times the number of source points.
pub fn fitness_total(transform: &Transform, source: &Vec<Point>, target: &Vec<Point>) -> (r: u128)
    requires
        transform.wf(),
        cloud_ok(source@),
        target@.len() > 0,
    ensures
        r == fitness_spec(*transform, source@, target@),
{
    let placed = transform.apply_all(source);
    let pairs = find_correspondences(&placed, target);
    proof {
        lemma_pair_sum_matches(placed@, target@, placed@.len() as int);
    }
    residual_total(&pairs)
}

/// Fitness of a candidate transform: the mean squared distance from the
/// placed source to the nearest target points, exactly. Lower is better.
pub fn fitness(transform: &Transform, source: &Vec<Point>, target: &Vec<Point>) -> (r: MeanSquared)
    requires
        transform.wf(),
        cloud_ok(source@),
        target@.len() > 0,
    ensures
        r == mean_of(fitness_spec(*transform, source@, target@), source@.len() as int),
{
    MeanSquared { total: fitness_total(transform, source, target), count: source.len() as u64 }
}

/// Every point of a cloud, matched against that same cloud, meets a point
/// equal to itself, at distance zero, so the residual sum is zero.
pub proof fn lemma_identity_correspondence(c: Seq<Point>)
    requires
        c.len() > 0,
    ensures
        forall|i: int| 0 <= i < c.len() ==>
            #[trigger] c[nearest_index(c[i].lifted(), c)] == c[i],
        residual_sum(Seq::new(c.len(), |i: int| c[i].lifted()), c, c.len() as int) == 0,
{
    let lifted = Seq::new(c.len(), |i: int| c[i].lifted());
    assert forall|i: int| 0 <= i < c.len() implies min_sq(#[trigger] c[i].lifted(), c) == 0
        && c[nearest_index(c[i].lifted(), c)] == c[i] by {
        lemma_self_nearest(c, i);
    }
    assert forall|i: int| 0 <= i < c.len() implies min_sq(#[trigger] lifted[i], c) == 0 by {
        assert(lifted[i] == c[i].lifted());
        lemma_self_nearest(c, i);
    }
    lemma_zero_residual(lifted, c, c.len() as int);
}

proof fn lemma_self_nearest(c: Seq<Point>, i: int)
    requires
        0 <= i < c.len(),
    ensures
        min_sq(c[i].lifted(), c) == 0,
        c[nearest_index(c[i].lifted(), c)] == c[i],
{
    let q = c[i].lifted();
    lemma_nearest_in(q, c, c.len() as int);
    let n = nearest_index(q, c);
    let (ex, ey, ez) = (q.x - c[i].x, q.y - c[i].y, q.z - c[i].z);
    assert(ex == 0 && ey == 0 && ez == 0);
    assert(ex * ex + ey * ey + ez * ez == 0) by (nonlinear_arith)
        requires ex == 0, ey == 0, ez == 0;
    assert(sq_dist(q, c[i]) == 0);
    assert(sq_dist(q, c[n]) <= 0);
    let p = c[n];
    let (dx, dy, dz) = (q.x - p.x, q.y - p.y, q.z - p.z);
    assert(dx == 0 && dy == 0 && dz == 0) by (nonlinear_arith)
        requires dx * dx + dy * dy + dz * dz <= 0;
}

proof fn lemma_zero_residual(placed: Seq<Vec3>, c: Seq<Point>, k: int)
    requires
        0 <= k <= placed.len(),
        forall|i: int| 0 <= i < k ==> min_sq(#[trigger] placed[i], c) == 0,
    ensures
        residual_sum(placed, c, k) == 0,
    decreases k,
{
    if k > 0 {
        lemma_zero_residual(placed, c, k - 1);
    }
}

/// The identity places every point where it was.
pub proof fn lemma_identity_places(p: Point)
    ensures
        apply_spec(Transform::identity_spec(), p) == p.lifted(),
{
    let q = Quat::identity_spec();
    let k = QUAT_ONE * QUAT_ONE;
    assert(q.norm2() == k);
    assert(mat(q, 0, 0) == k && mat(q, 1, 1) == k && mat(q, 2, 2) == k);
    assert(mat(q, 0, 1) == 0 && mat(q, 0, 2) == 0 && mat(q, 1, 0) == 0);
    assert(mat(q, 1, 2) == 0 && mat(q, 2, 0) == 0 && mat(q, 2, 1) == 0);
    vstd::arithmetic::div_mod::lemma_div_multiples_vanish(p.x as int, k);
    vstd::arithmetic::div_mod::lemma_div_multiples_vanish(p.y as int, k);
    vstd::arithmetic::div_mod::lemma_div_multiples_vanish(p.z as int, k);
}

/// Placed by the identity and matched against itself, a cloud has fitness zero.
pub proof fn lemma_identity_fitness(c: Seq<Point>)
    requires
        c.len() > 0,
    ensures
        fitness_spec(Transform::identity_spec(), c, c) == 0,
{
    let placed = place_spec(Transform::identity_spec(), c);
    assert forall|i: int| 0 <= i < c.len() implies #[trigger] placed[i] == c[i].lifted() by {
        lemma_identity_places(c[i]);
    }
    assert(placed =~= Seq::new(c.len(), |i: int| c[i].lifted()));
    lemma_identity_correspondence(c);
}

proof fn lemma_sq_dist_zero(q: Vec3, p: Point)
    ensures
        sq_dist(q, p) >= 0,
        sq_dist(q, p) == 0 <==> p.lifted() == q,
{
    let (dx, dy, dz) = (q.x - p.x, q.y - p.y, q.z - p.z);
    assert(dx * dx >= 0 && dy * dy >= 0 && dz * dz >= 0) by (nonlinear_arith);
    assert(dx * dx + dy * dy + dz * dz == 0 <==> (dx == 0 && dy == 0 && dz == 0)) by (nonlinear_arith)
        requires dx * dx >= 0 && dy * dy >= 0 && dz * dz >= 0;
}

/// `q` coincides with some point of `t`.
pub open spec fn meets(q: Vec3, t: Seq<Point>) -> bool {
    exists|j: int| 0 <= j < t.len() && #[trigger] t[j].lifted() == q
}

proof fn lemma_min_sq_zero(q: Vec3, t: Seq<Point>)
    requires
        t.len() > 0,
    ensures
        min_sq(q, t) >= 0,
        min_sq(q, t) == 0 <==> meets(q, t),
{
    lemma_nearest_in(q, t, t.len() as int);
    let n = nearest_index(q, t);
    lemma_sq_dist_zero(q, t[n]);
    if exists|j: int| 0 <= j < t.len() && #[trigger] t[j].lifted() == q {
        let j = choose|j: int| 0 <= j < t.len() && #[trigger] t[j].lifted() == q;
        lemma_sq_dist_zero(q, t[j]);
    }
}

proof fn lemma_residual_zero(placed: Seq<Vec3>, t: Seq<Point>, k: int)
    requires
        t.len() > 0,
        0 <= k <= placed.len(),
    ensures
        residual_sum(placed, t, k) >= 0,
        residual_sum(placed, t, k) == 0 <==> forall|i: int| 0 <= i < k ==> #[trigger] min_sq(placed[i], t) == 0,
    decreases k,
{
    if k > 0 {
        lemma_residual_zero(placed, t, k - 1);
        lemma_min_sq_zero(placed[k - 1], t);
        if residual_sum(placed, t, k) == 0 {
            assert forall|i: int| 0 <= i < k implies #[trigger] min_sq(placed[i], t) == 0 by {
                lemma_min_sq_zero(placed[i], t);
            }
        }
    }
}

/// The fitness is zero exactly when every placed source point coincides
/// with some target point.
pub proof fn lemma_fitness_zero(tr: Transform, source: Seq<Point>, target: Seq<Point>)
    requires
        target.len() > 0,
    ensures
        fitness_spec(tr, source, target) >= 0,
        fitness_spec(tr, source, target) == 0 <==> forall|i: int| 0 <= i < source.len() ==>
            #[trigger] meets(apply_spec(tr, source[i]), target),
{
    let placed = place_spec(tr, source);
    lemma_residual_zero(placed, target, source.len() as int);
    assert forall|i: int| 0 <= i < source.len() implies
        (min_sq(placed[i], target) == 0 <==> #[trigger] meets(apply_spec(tr, source[i]), target)) by {
        lemma_min_sq_zero(placed[i], target);
    }
    if forall|i: int| 0 <= i < source.len() ==> #[trigger] meets(apply_spec(tr, source[i]), target) {
        assert forall|i: int| 0 <= i < source.len() implies #[trigger] min_sq(placed[i], target) == 0 by {
            assert(meets(apply_spec(tr, source[i]), target));
        }
    }
    if fitness_spec(tr, source, target) == 0 {
        assert forall|i: int| 0 <= i < source.len() implies #[trigger] meets(apply_spec(tr, source[i]), target) by {
            assert(min_sq(placed[i], target) == 0);
        }
    }
}

} // verus!
