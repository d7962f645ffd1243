use vstd::prelude::*;
use crate::correspond::{lemma_nearest_in, nearest, nearest_index};
use crate::point::{lemma_axis_sq, sq_dist, squared_distance, Point, Vec3, AXIS_SQ_LIMIT, PLACED_LIMIT};

verus! {

/// `order` lists every index of `points` once, by increasing x; point `j`
/// stands at position `rank[j]`.
pub open spec fn sorted_by_x(points: Seq<Point>, order: Seq<usize>, rank: Seq<usize>) -> bool {
    &&& order.len() == points.len()
    &&& rank.len() == points.len()
    &&& forall|k: int| 0 <= k < order.len() ==> #[trigger] order[k] < points.len()
    &&& forall|j: int| 0 <= j < points.len() ==> #[trigger] rank[j] < order.len() && order[rank[j] as int] == j
    &&& forall|k: int, l: int| 0 <= k <= l < order.len() ==> #[trigger] points[order[k] as int].x <= #[trigger] points[order[l] as int].x
}

/// A search index over a cloud: the points ranked by their x coordinate,
/// so that a query scans outward from its own x and stops once the gap in
/// x alone exceeds the best distance found. Without a ranking (`None`) the
/// query scans every point.
pub struct SpatialIndex {
    pub points: Vec<Point>,
    /// Indices by increasing x, and the position of each index.
    pub ranking: Option<(Vec<usize>, Vec<usize>)>,
}

/// Relies on std's `slice::sort_by_key` to order the indices by the x of
/// their points; nothing is assumed of the outcome, which `build` checks.
#[verifier::external_body]
fn sort_by_x(order: &mut Vec<usize>, points: &Vec<Point>)
    requires
        forall|k: int| 0 <= k < old(order)@.len() ==> #[trigger] old(order)@[k] < points@.len(),
{
    order.sort_by_key(|&i| points[i].x);
}

/// The positions of the indices in `order`, when `order` lists every index
/// of `points` once, by increasing x.
fn check_order(points: &Vec<Point>, order: &Vec<usize>) -> (r: Option<Vec<usize>>)
    ensures
        r matches Some(rank) ==> sorted_by_x(points@, order@, rank@),
{
    let n = points.len();
    if order.len() != n {
        return None;
    }
    let mut rank: Vec<usize> = Vec::new();
    while rank.len() < n
        invariant
            rank@.len() <= n,
        decreases n - rank@.len(),
    {
        rank.push(n);
    }
    let mut k: usize = 0;
    while k < n
        invariant
            n == points@.len(),
            order@.len() == n,
            rank@.len() == n,
            k <= n,
            forall|i: int| 0 <= i < k ==> #[trigger] order@[i] < n,
        decreases n - k,
    {
        let j = order[k];
        if j >= n {
            return None;
        }
        rank.set(j, k);
        k = k + 1;
    }
    let mut j: usize = 0;
    while j < n
        invariant
            n == points@.len(),
            order@.len() == n,
            rank@.len() == n,
            j <= n,
            forall|i: int| 0 <= i < n ==> #[trigger] order@[i] < n,
            forall|i: int| 0 <= i < j ==> #[trigger] rank@[i] < n && order@[rank@[i] as int] == i,
        decreases n - j,
    {
        let k = rank[j];
        if k >= n || order[k] != j {
            return None;
        }
        j = j + 1;
    }
    let mut k: usize = 1;
    while k < n
        invariant
            n == points@.len(),
            order@.len() == n,
            1 <= k || n == 0,
            k <= n || n == 0,
            forall|i: int| 0 <= i < n ==> #[trigger] order@[i] < n,
            rank@.len() == n,
            forall|i: int| 0 <= i < n ==> #[trigger] rank@[i] < n && order@[rank@[i] as int] == i,
            forall|a: int, b: int| 0 <= a <= b < k && b < n ==>
                #[trigger] points@[order@[a] as int].x <= #[trigger] points@[order@[b] as int].x,
        decreases n - k,
    {
        if points[order[k - 1]].x > points[order[k]].x {
            return None;
        }
        k = k + 1;
    }
    Some(rank)
}

impl SpatialIndex {
    pub open spec fn wf(&self) -> bool {
        self.ranking matches Some(r) ==> sorted_by_x(self.points@, r.0@, r.1@)
    }

    /// Builds the index of a cloud.
    pub fn build(cloud: &Vec<Point>) -> (r: SpatialIndex)
        ensures
            r.wf(),
            r.points@ == cloud@,
    {
        let mut points: Vec<Point> = Vec::new();
        let mut i: usize = 0;
        while i < cloud.len()
            invariant
                i <= cloud@.len(),
                points@ == cloud@.subrange(0, i as int),
            decreases cloud@.len() - i,
        {
            points.push(cloud[i]);
            i = i + 1;
        }
        assert(points@ =~= cloud@);
        let mut order: Vec<usize> = Vec::new();
        while order.len() < points.len()
            invariant
                order@.len() <= points@.len(),
                forall|k: int| 0 <= k < order@.len() ==> #[trigger] order@[k] == k,
            decreases points@.len() - order@.len(),
        {
            order.push(order.len());
        }
        sort_by_x(&mut order, &points);
        match check_order(&points, &order) {
            Some(rank) => SpatialIndex { points, ranking: Some((order, rank)) },
            None => SpatialIndex { points, ranking: None },
        }
    }
}

/// `a` is no farther from `q` than `b`, and earlier on a tie.
pub open spec fn no_worse(q: Vec3, pts: Seq<Point>, a: int, b: int) -> bool {
    sq_dist(q, pts[a]) < sq_dist(q, pts[b]) || (sq_dist(q, pts[a]) == sq_dist(q, pts[b]) && a <= b)
}

proof fn lemma_gap_below(q: Vec3, p: Point)
    ensures
        (q.x - p.x) * (q.x - p.x) <= sq_dist(q, p),
{
    let (dy, dz) = (q.y - p.y, q.z - p.z);
    assert(dy * dy >= 0 && dz * dz >= 0) by (nonlinear_arith);
}

proof fn lemma_square_monotone(a: int, b: int)
    requires
        0 <= a <= b,
    ensures
        a * a <= b * b,
{
    assert(a * a <= b * b) by (nonlinear_arith)
        requires 0 <= a <= b;
}

/// The point no worse than all others is the first nearest one.
proof fn lemma_least_is_nearest(q: Vec3, pts: Seq<Point>, b: int)
    requires
        0 <= b < pts.len(),
        forall|j: int| 0 <= j < pts.len() ==> #[trigger] no_worse(q, pts, b, j),
    ensures
        b == nearest_index(q, pts),
{
    lemma_nearest_in(q, pts, pts.len() as int);
    let n0 = nearest_index(q, pts);
    assert(no_worse(q, pts, b, n0));
    if b != n0 {
        assert(sq_dist(q, pts[n0]) <= sq_dist(q, pts[b]));
        assert(b < n0);
        assert(sq_dist(q, pts[n0]) < sq_dist(q, pts[b]));
    }
}

impl SpatialIndex {
    /// Index of the point nearest to `q`, the earliest on a tie: the same
    /// answer as a scan of every point.
    pub fn nearest(&self, q: &Vec3) -> (r: usize)
        requires
            self.wf(),
            self.points@.len() > 0,
            q.within(PLACED_LIMIT as int),
        ensures
            r == nearest_index(*q, self.points@),
    {
        let pts = &self.points;
        let (order, rank) = match &self.ranking {
            Some(r) => (&r.0, &r.1),
            None => {
                return nearest(pts, q);
            },
        };
        let n = pts.len();
        let ghost ps = pts@;
        // First position whose x is at least q.x.
        let mut lo: usize = 0;
        let mut hi: usize = n;
        while lo < hi
            invariant
                sorted_by_x(ps, order@, rank@),
                pts@ == ps,
                n == ps.len(),
                lo <= hi <= n,
                forall|k: int| 0 <= k < lo ==> ps[#[trigger] order@[k] as int].x < q.x,
                forall|k: int| hi <= k < n ==> ps[#[trigger] order@[k] as int].x >= q.x,
            decreases hi - lo,
        {
            let mid = lo + (hi - lo) / 2;
            if (pts[order[mid]].x as i64) < q.x {
                lo = mid + 1;
            } else {
                hi = mid;
            }
        }
        let start: usize = if lo < n { lo } else { n - 1 };
        let mut best: usize = order[start];
        let mut best_d: u128 = squared_distance(q, &pts[best]);
        let mut left: usize = start;
        let mut right: usize = start + 1;
        let mut stop = false;
        // Outward to larger x.
        while right < n && !stop
            invariant
                sorted_by_x(ps, order@, rank@),
                n == ps.len(),
                q.within(PLACED_LIMIT as int),
                forall|k: int| 0 <= k < lo ==> ps[#[trigger] order@[k] as int].x < q.x,
                forall|k: int| lo <= k < n ==> ps[#[trigger] order@[k] as int].x >= q.x,
                left == start,
                pts@ == ps,
                best_d <= 3 * AXIS_SQ_LIMIT,
                start < right <= n,
                start + 1 >= lo,
                best < n,
                best_d == sq_dist(*q, ps[best as int]),
                forall|k: int| left <= k < right ==> no_worse(*q, ps, best as int, #[trigger] order@[k] as int),
                stop ==> right < n && ps[order@[right as int] as int].x - q.x >= 0
                    && (ps[order@[right as int] as int].x - q.x) * (ps[order@[right as int] as int].x - q.x) > best_d,
            decreases n - right + if stop { 0int } else { 1int },
        {
            let j = order[right];
            let gap: i128 = pts[j].x as i128 - q.x as i128;
            proof {
                lemma_axis_sq(gap as int);
            }
            if gap * gap > best_d as i128 {
                stop = true;
            } else {
                let d = squared_distance(q, &pts[j]);
                if d < best_d || (d == best_d && j < best) {
                    best = j;
                    best_d = d;
                }
                right = right + 1;
            }
        }
        proof {
            // Past `right`, the gap in x alone exceeds the best distance.
            assert forall|k: int| right <= k < n implies sq_dist(*q, ps[#[trigger] order@[k] as int]) > best_d by {
                let r = right as int;
                let g0 = ps[order@[r] as int].x - q.x;
                let g = ps[order@[k] as int].x - q.x;
                assert(ps[order@[r] as int].x <= ps[order@[k] as int].x);
                lemma_square_monotone(g0, g);
                lemma_gap_below(*q, ps[order@[k] as int]);
                assert((q.x - ps[order@[k] as int].x) * (q.x - ps[order@[k] as int].x) == g * g) by (nonlinear_arith)
                    requires g == ps[order@[k] as int].x - q.x;
            }
        }
        stop = false;
        // Outward to smaller x.
        while left > 0 && !stop
            invariant
                sorted_by_x(ps, order@, rank@),
                n == ps.len(),
                q.within(PLACED_LIMIT as int),
                forall|k: int| 0 <= k < lo ==> ps[#[trigger] order@[k] as int].x < q.x,
                left <= start,
                pts@ == ps,
                best_d <= 3 * AXIS_SQ_LIMIT,
                start < n,
                start <= lo,
                best < n,
                best_d == sq_dist(*q, ps[best as int]),
                forall|k: int| left <= k < right ==> no_worse(*q, ps, best as int, #[trigger] order@[k] as int),
                forall|k: int| right <= k < n ==> sq_dist(*q, ps[#[trigger] order@[k] as int]) > best_d,
                right <= n,
                stop ==> left > 0 && q.x - ps[order@[left - 1] as int].x > 0
                    && (q.x - ps[order@[left - 1] as int].x) * (q.x - ps[order@[left - 1] as int].x) > best_d,
            decreases left + if stop { 0int } else { 1int },
        {
            let j = order[left - 1];
            let gap: i128 = q.x as i128 - pts[j].x as i128;
            proof {
                lemma_axis_sq(gap as int);
            }
            if gap * gap > best_d as i128 {
                stop = true;
            } else {
                let d = squared_distance(q, &pts[j]);
                if d < best_d || (d == best_d && j < best) {
                    best = j;
                    best_d = d;
                }
                left = left - 1;
            }
        }
        proof {
            assert forall|k: int| 0 <= k < left implies sq_dist(*q, ps[#[trigger] order@[k] as int]) > best_d by {
                let l = left as int - 1;
                let g0 = q.x - ps[order@[l] as int].x;
                let g = q.x - ps[order@[k] as int].x;
                assert(ps[order@[k] as int].x <= ps[order@[l] as int].x);
                lemma_square_monotone(g0, g);
                lemma_gap_below(*q, ps[order@[k] as int]);
                assert((q.x - ps[order@[k] as int].x) * (q.x - ps[order@[k] as int].x) == (ps[order@[k] as int].x - q.x) * (ps[order@[k] as int].x - q.x)) by (nonlinear_arith);
            }
            assert forall|j: int| 0 <= j < n implies #[trigger] no_worse(*q, ps, best as int, j) by {
                let k = rank@[j] as int;
                assert(order@[k] == j);
                if k < left || k >= right {
                    assert(sq_dist(*q, ps[order@[k] as int]) > best_d);
                } else {
                    assert(no_worse(*q, ps, best as int, order@[k] as int));
                }
            }
            lemma_least_is_nearest(*q, ps, best as int);
        }
        best
    }
}

} // verus!
