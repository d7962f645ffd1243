use vstd::prelude::*;
use crate::correspond::Correspondence;
use crate::point::{Point, Vec3, MAX_POINTS, PLACED_LIMIT, TRANSLATION_LIMIT};
use crate::arith::floor_div;
use crate::rotation::{
    lemma_comp_products, lemma_mat_entry_bound, mat_row, int_sqrt, is_isqrt, mat, normalize, normalize_spec, rotate, rotate_spec, Quat, QUAT_ONE, RAW_QUAT_LIMIT,
};
use crate::transform::{clamp_spec, clamp_translation_spec, Transform};

verus! {

/// Coordinate `a` (0, 1 or 2) of a placed point.
pub open spec fn coord(v: Vec3, a: int) -> int {
    if a == 0 { v.x as int } else if a == 1 { v.y as int } else { v.z as int }
}

/// Coordinate `a` (0, 1 or 2) of a cloud point.
pub open spec fn pcoord(p: Point, a: int) -> int {
    if a == 0 { p.x as int } else if a == 1 { p.y as int } else { p.z as int }
}

/// Sum of coordinate `a` over the placed side of the first `k` pairs.
pub open spec fn placed_sum(c: Seq<Correspondence>, a: int, k: int) -> int
    decreases k,
{
    if k <= 0 { 0 } else { placed_sum(c, a, k - 1) + coord(c[k - 1].placed, a) }
}

/// Sum of coordinate `a` over the matched side of the first `k` pairs.
pub open spec fn matched_sum(c: Seq<Correspondence>, a: int, k: int) -> int
    decreases k,
{
    if k <= 0 { 0 } else { matched_sum(c, a, k - 1) + pcoord(c[k - 1].matched, a) }
}

/// Centroid of the placed side, each coordinate rounded down.
pub open spec fn placed_centroid(c: Seq<Correspondence>) -> Vec3 {
    let n = c.len() as int;
    Vec3 {
        x: (placed_sum(c, 0, n) / n) as i64,
        y: (placed_sum(c, 1, n) / n) as i64,
        z: (placed_sum(c, 2, n) / n) as i64,
    }
}

/// Centroid of the matched side, each coordinate rounded down.
pub open spec fn matched_centroid(c: Seq<Correspondence>) -> Vec3 {
    let n = c.len() as int;
    Vec3 {
        x: (matched_sum(c, 0, n) / n) as i64,
        y: (matched_sum(c, 1, n) / n) as i64,
        z: (matched_sum(c, 2, n) / n) as i64,
    }
}

/// Entry `(a, b)` of the cross-covariance over the first `k` pairs:
/// the sum of `(placed_a - cs_a) * (matched_b - ct_b)`.
pub open spec fn cross_sum(c: Seq<Correspondence>, cs: Vec3, ct: Vec3, a: int, b: int, k: int) -> int
    decreases k,
{
    if k <= 0 {
        0
    } else {
        cross_sum(c, cs, ct, a, b, k - 1)
            + (coord(c[k - 1].placed, a) - coord(cs, a)) * (pcoord(c[k - 1].matched, b) - coord(ct, b))
    }
}

/// The pairs that an alignment step works on: not empty, not too many, placed in bounds.
pub open spec fn pairs_ok(c: Seq<Correspondence>) -> bool {
    &&& 0 < c.len() <= MAX_POINTS
    &&& forall|i: int| 0 <= i < c.len() ==> #[trigger] c[i].placed.within(PLACED_LIMIT as int)
}

/// The 3x3 cross-covariance matrix, row-major: entry `(a, b)` at `3 a + b`.
#[derive(Debug, Clone, Copy)]
pub struct Covariance {
    pub m: [i128; 9],
}

/// A sum of coordinates, one per axis.
#[derive(Debug, Clone, Copy, PartialEq, Eq, Structural)]
pub struct Sum3 {
    pub x: i128,
    pub y: i128,
    pub z: i128,
}

/// The coordinate sums of the placed side of the pairs.
pub open spec fn placed_sums(c: Seq<Correspondence>) -> Sum3 {
    let n = c.len() as int;
    Sum3 { x: placed_sum(c, 0, n) as i128, y: placed_sum(c, 1, n) as i128, z: placed_sum(c, 2, n) as i128 }
}

/// The coordinate sums of the matched side of the pairs.
pub open spec fn matched_sums(c: Seq<Correspondence>) -> Sum3 {
    let n = c.len() as int;
    Sum3 { x: matched_sum(c, 0, n) as i128, y: matched_sum(c, 1, n) as i128, z: matched_sum(c, 2, n) as i128 }
}

/// Sums over `n` pairs, as bounded as the pairs make them.
pub open spec fn sums_ok(ss: Sum3, st: Sum3, n: u64) -> bool {
    &&& 0 < n <= MAX_POINTS
    &&& -(n * PLACED_LIMIT) <= ss.x <= n * PLACED_LIMIT
    &&& -(n * PLACED_LIMIT) <= ss.y <= n * PLACED_LIMIT
    &&& -(n * PLACED_LIMIT) <= ss.z <= n * PLACED_LIMIT
    &&& -(n * 0x8000_0000) <= st.x <= n * 0x8000_0000
    &&& -(n * 0x8000_0000) <= st.y <= n * 0x8000_0000
    &&& -(n * 0x8000_0000) <= st.z <= n * 0x8000_0000
}

/// What the closed-form step needs: the centroids and the cross-covariance
/// of the current pairs, and the coordinate sums of both sides with the
/// number of pairs, from which the translation is computed exactly.
#[derive(Debug, Clone, Copy)]
pub struct AlignmentInput {
    pub source_centroid: Vec3,
    pub target_centroid: Vec3,
    pub covariance: Covariance,
    pub source_sum: Sum3,
    pub target_sum: Sum3,
    pub count: u64,
}

/// The input to the closed-form step for the pairs `c`.
pub open spec fn alignment_input_ok(c: Seq<Correspondence>, r: AlignmentInput) -> bool {
    &&& r.source_centroid == placed_centroid(c)
    &&& r.target_centroid == matched_centroid(c)
    &&& r.source_sum == placed_sums(c)
    &&& r.target_sum == matched_sums(c)
    &&& r.count == c.len()
    &&& forall|a: int, b: int| 0 <= a < 3 && 0 <= b < 3 ==>
        #[trigger] r.covariance.m@[3 * a + b] == cross_sum(c, placed_centroid(c), matched_centroid(c), a, b, c.len() as int)
}

proof fn lemma_div_within(s: int, n: int, l: int)
    requires
        0 < n,
        l >= 0,
        -(n * l) <= s <= n * l,
    ensures
        -l <= s / n <= l,
{
    vstd::arithmetic::div_mod::lemma_fundamental_div_mod(s, n);
    let q = s / n;
    let r = s % n;
    assert(-l <= q <= l) by (nonlinear_arith)
        requires s == n * q + r, 0 <= r < n, -(n * l) <= s <= n * l, n > 0, l >= 0;
}

fn axis_sums(pairs: &Vec<Correspondence>, a: usize) -> (r: (i128, i128))
    requires
        pairs_ok(pairs@),
        a < 3,
    ensures
        r.0 == placed_sum(pairs@, a as int, pairs@.len() as int),
        r.1 == matched_sum(pairs@, a as int, pairs@.len() as int),
        -(pairs@.len() * PLACED_LIMIT) <= r.0 <= pairs@.len() * PLACED_LIMIT,
        -(pairs@.len() * 0x8000_0000) <= r.1 <= pairs@.len() * 0x8000_0000,
{
    let mut s: i128 = 0;
    let mut t: i128 = 0;
    let mut i: usize = 0;
    while i < pairs.len()
        invariant
            pairs_ok(pairs@),
            a < 3,
            i <= pairs@.len(),
            s == placed_sum(pairs@, a as int, i as int),
            t == matched_sum(pairs@, a as int, i as int),
            -(i * PLACED_LIMIT) <= s <= i * PLACED_LIMIT,
            -(i * 0x8000_0000) <= t <= i * 0x8000_0000,
        decreases pairs@.len() - i,
    {
        let c = pairs[i];
        assert(pairs@[i as int].placed.within(PLACED_LIMIT as int));
        let (pv, mv): (i64, i32) = if a == 0 {
            (c.placed.x, c.matched.x)
        } else if a == 1 {
            (c.placed.y, c.matched.y)
        } else {
            (c.placed.z, c.matched.z)
        };
        assert(i + 1 <= MAX_POINTS);
        s = s + pv as i128;
        t = t + mv as i128;
        i = i + 1;
    }
    (s, t)
}

/// Centroids of the two sides of the pairs, rounded down.
pub fn centroids(pairs: &Vec<Correspondence>) -> (r: (Vec3, Vec3))
    requires
        pairs_ok(pairs@),
    ensures
        r.0 == placed_centroid(pairs@),
        r.1 == matched_centroid(pairs@),
        r.0.within(PLACED_LIMIT as int),
        r.1.within(0x8000_0000),
{
    let n = pairs.len() as i128;
    let (sx, tx) = axis_sums(pairs, 0);
    let (sy, ty) = axis_sums(pairs, 1);
    let (sz, tz) = axis_sums(pairs, 2);
    proof {
        let nn = n as int;
        assert(nn * PLACED_LIMIT == pairs@.len() * PLACED_LIMIT);
        lemma_div_within(sx as int, nn, PLACED_LIMIT as int);
        lemma_div_within(sy as int, nn, PLACED_LIMIT as int);
        lemma_div_within(sz as int, nn, PLACED_LIMIT as int);
        lemma_div_within(tx as int, nn, 0x8000_0000);
        lemma_div_within(ty as int, nn, 0x8000_0000);
        lemma_div_within(tz as int, nn, 0x8000_0000);
    }
    let cs = Vec3 {
        x: crate::arith::floor_div(sx, n) as i64,
        y: crate::arith::floor_div(sy, n) as i64,
        z: crate::arith::floor_div(sz, n) as i64,
    };
    let ct = Vec3 {
        x: crate::arith::floor_div(tx, n) as i64,
        y: crate::arith::floor_div(ty, n) as i64,
        z: crate::arith::floor_div(tz, n) as i64,
    };
    (cs, ct)
}

proof fn lemma_cross_term(u: int, v: int)
    requires
        -0x80_0000_0000 <= u <= 0x80_0000_0000,
        -0x1_0000_0000 <= v <= 0x1_0000_0000,
    ensures
        -0x80_0000_0000_0000_0000 <= u * v <= 0x80_0000_0000_0000_0000,
{
    assert(-0x80_0000_0000_0000_0000 <= u * v <= 0x80_0000_0000_0000_0000) by (nonlinear_arith)
        requires -0x80_0000_0000 <= u <= 0x80_0000_0000, -0x1_0000_0000 <= v <= 0x1_0000_0000;
}

fn cross_entry(pairs: &Vec<Correspondence>, cs: &Vec3, ct: &Vec3, a: usize, b: usize) -> (r: i128)
    requires
        pairs_ok(pairs@),
        cs.within(PLACED_LIMIT as int),
        ct.within(0x8000_0000),
        a < 3,
        b < 3,
    ensures
        r == cross_sum(pairs@, *cs, *ct, a as int, b as int, pairs@.len() as int),
{
    let mut s: i128 = 0;
    let mut i: usize = 0;
    while i < pairs.len()
        invariant
            pairs_ok(pairs@),
            cs.within(PLACED_LIMIT as int),
            ct.within(0x8000_0000),
            a < 3,
            b < 3,
            i <= pairs@.len(),
            s == cross_sum(pairs@, *cs, *ct, a as int, b as int, i as int),
            -(i * 0x80_0000_0000_0000_0000) <= s <= i * 0x80_0000_0000_0000_0000,
        decreases pairs@.len() - i,
    {
        let c = pairs[i];
        assert(pairs@[i as int].placed.within(PLACED_LIMIT as int));
        let pv: i64 = if a == 0 { c.placed.x } else if a == 1 { c.placed.y } else { c.placed.z };
        let cv: i64 = if a == 0 { cs.x } else if a == 1 { cs.y } else { cs.z };
        let mv: i32 = if b == 0 { c.matched.x } else if b == 1 { c.matched.y } else { c.matched.z };
        let tv: i64 = if b == 0 { ct.x } else if b == 1 { ct.y } else { ct.z };
        let u: i128 = pv as i128 - cv as i128;
        let v: i128 = mv as i128 - tv as i128;
        proof {
            lemma_cross_term(u as int, v as int);
        }
        assert(i + 1 <= MAX_POINTS);
        s = s + u * v;
        i = i + 1;
    }
    s
}

/// Centroids and cross-covariance of the pairs: the input of the
/// closed-form (SVD) alignment.
pub fn alignment_input(pairs: &Vec<Correspondence>) -> (r: AlignmentInput)
    requires
        pairs_ok(pairs@),
    ensures
        alignment_input_ok(pairs@, r),
        r.source_centroid.within(PLACED_LIMIT as int),
        r.target_centroid.within(0x8000_0000),
        sums_ok(r.source_sum, r.target_sum, r.count),
{
    let (cs, ct) = centroids(pairs);
    let (sx, tx) = axis_sums(pairs, 0);
    let (sy, ty) = axis_sums(pairs, 1);
    let (sz, tz) = axis_sums(pairs, 2);
    let mut m: [i128; 9] = [0; 9];
    let mut a: usize = 0;
    while a < 3
        invariant
            pairs_ok(pairs@),
            cs == placed_centroid(pairs@),
            ct == matched_centroid(pairs@),
            cs.within(PLACED_LIMIT as int),
            ct.within(0x8000_0000),
            a <= 3,
            forall|i: int, j: int| 0 <= i < a && 0 <= j < 3 ==>
                #[trigger] m@[3 * i + j] == cross_sum(pairs@, cs, ct, i, j, pairs@.len() as int),
        decreases 3 - a,
    {
        let mut b: usize = 0;
        while b < 3
            invariant
                pairs_ok(pairs@),
                cs.within(PLACED_LIMIT as int),
                ct.within(0x8000_0000),
                a < 3,
                b <= 3,
                forall|i: int, j: int| 0 <= i < a && 0 <= j < 3 ==>
                    #[trigger] m@[3 * i + j] == cross_sum(pairs@, cs, ct, i, j, pairs@.len() as int),
                forall|j: int| 0 <= j < b ==>
                    #[trigger] m@[3 * a + j] == cross_sum(pairs@, cs, ct, a as int, j, pairs@.len() as int),
            decreases 3 - b,
        {
            let e = cross_entry(pairs, &cs, &ct, a, b);
            m[3 * a + b] = e;
            b = b + 1;
        }
        a = a + 1;
    }
    AlignmentInput {
        source_centroid: cs,
        target_centroid: ct,
        covariance: Covariance { m },
        source_sum: Sum3 { x: sx, y: sy, z: sz },
        target_sum: Sum3 { x: tx, y: ty, z: tz },
        count: pairs.len() as u64,
    }
}

/// The translation that completes a rotation `q` of the alignment: the
/// target centroid minus the rotated source centroid, computed from the sums
/// with one rounding down: `(|q|^2 St - mat(q) Ss) / (|q|^2 n)` per axis.
pub open spec fn alignment_translation(q: Quat, ss: Sum3, st: Sum3, n: u64) -> Vec3 {
    let k = q.norm2();
    let d = k * n;
    clamp_translation_spec(
        (k * st.x - mat_row(q, 0, ss.x as int, ss.y as int, ss.z as int)) / d,
        (k * st.y - mat_row(q, 1, ss.x as int, ss.y as int, ss.z as int)) / d,
        (k * st.z - mat_row(q, 2, ss.x as int, ss.y as int, ss.z as int)) / d,
    )
}

proof fn lemma_entry_times_sum(m: int, k: int, v: int)
    requires
        -k <= m <= k,
        0 < k <= 0x4_0000_0000_0000,
        -0x40_0000_0000_0000_0000 <= v <= 0x40_0000_0000_0000_0000,
    ensures
        -0x100_0000_0000_0000_0000_0000_0000_0000 <= m * v <= 0x100_0000_0000_0000_0000_0000_0000_0000,
{
    assert(-0x100_0000_0000_0000_0000_0000_0000_0000 <= m * v <= 0x100_0000_0000_0000_0000_0000_0000_0000) by (nonlinear_arith)
        requires -k <= m <= k, 0 < k <= 0x4_0000_0000_0000, -0x40_0000_0000_0000_0000 <= v <= 0x40_0000_0000_0000_0000;
}

fn clamp_wide(v: i128) -> (r: i64)
    ensures
        r == clamp_spec(v as int, TRANSLATION_LIMIT as int),
{
    if v > TRANSLATION_LIMIT as i128 {
        TRANSLATION_LIMIT
    } else if v < -(TRANSLATION_LIMIT as i128) {
        -TRANSLATION_LIMIT
    } else {
        v as i64
    }
}

/// The translation of an alignment with rotation `q`, from the sums.
pub fn sum_translation(q: &Quat, ss: &Sum3, st: &Sum3, n: u64) -> (r: Vec3)
    requires
        q.wf(),
        sums_ok(*ss, *st, n),
    ensures
        r == alignment_translation(*q, *ss, *st, n),
        r.within(TRANSLATION_LIMIT as int),
{
    proof {
        lemma_comp_products(q.w as int, q.w as int);
        lemma_comp_products(q.x as int, q.x as int);
        lemma_comp_products(q.y as int, q.y as int);
        lemma_comp_products(q.z as int, q.z as int);
        lemma_comp_products(q.x as int, q.y as int);
        lemma_comp_products(q.x as int, q.z as int);
        lemma_comp_products(q.y as int, q.z as int);
        lemma_comp_products(q.w as int, q.x as int);
        lemma_comp_products(q.w as int, q.y as int);
        lemma_comp_products(q.w as int, q.z as int);
    }
    let (w, x, y, z) = (q.w as i128, q.x as i128, q.y as i128, q.z as i128);
    let (ww, xx, yy, zz) = (w * w, x * x, y * y, z * z);
    let (xy, xz, yz, wx, wy, wz) = (x * y, x * z, y * z, w * x, w * y, w * z);
    let k: i128 = ww + xx + yy + zz;
    let m00 = ww + xx - yy - zz;
    let m01 = 2 * (xy - wz);
    let m02 = 2 * (xz + wy);
    let m10 = 2 * (xy + wz);
    let m11 = ww - xx + yy - zz;
    let m12 = 2 * (yz - wx);
    let m20 = 2 * (xz - wy);
    let m21 = 2 * (yz + wx);
    let m22 = ww - xx - yy + zz;
    proof {
        assert(k == q.norm2());
        assert(m00 == mat(*q, 0, 0) && m01 == mat(*q, 0, 1) && m02 == mat(*q, 0, 2));
        assert(m10 == mat(*q, 1, 0) && m11 == mat(*q, 1, 1) && m12 == mat(*q, 1, 2));
        assert(m20 == mat(*q, 2, 0) && m21 == mat(*q, 2, 1) && m22 == mat(*q, 2, 2));
        lemma_mat_entry_bound(*q, 0, 0);
        lemma_mat_entry_bound(*q, 0, 1);
        lemma_mat_entry_bound(*q, 0, 2);
        lemma_mat_entry_bound(*q, 1, 0);
        lemma_mat_entry_bound(*q, 1, 1);
        lemma_mat_entry_bound(*q, 1, 2);
        lemma_mat_entry_bound(*q, 2, 0);
        lemma_mat_entry_bound(*q, 2, 1);
        lemma_mat_entry_bound(*q, 2, 2);
        let nn = n as int;
        assert(nn * PLACED_LIMIT <= 0x40_0000_0000_0000_0000) by (nonlinear_arith)
            requires 0 < nn <= 0x1_0000_0000;
        assert(nn * 0x8000_0000 <= 0x8000_0000_0000_0000) by (nonlinear_arith)
            requires 0 < nn <= 0x1_0000_0000;
        let kk = k as int;
        lemma_entry_times_sum(m00 as int, kk, ss.x as int);
        lemma_entry_times_sum(m01 as int, kk, ss.y as int);
        lemma_entry_times_sum(m02 as int, kk, ss.z as int);
        lemma_entry_times_sum(m10 as int, kk, ss.x as int);
        lemma_entry_times_sum(m11 as int, kk, ss.y as int);
        lemma_entry_times_sum(m12 as int, kk, ss.z as int);
        lemma_entry_times_sum(m20 as int, kk, ss.x as int);
        lemma_entry_times_sum(m21 as int, kk, ss.y as int);
        lemma_entry_times_sum(m22 as int, kk, ss.z as int);
        lemma_entry_times_sum(kk, kk, st.x as int);
        lemma_entry_times_sum(kk, kk, st.y as int);
        lemma_entry_times_sum(kk, kk, st.z as int);
        assert(0 < kk * nn <= 0x4_0000_0000_0000 * 0x1_0000_0000) by (nonlinear_arith)
            requires 0 < kk <= 0x4_0000_0000_0000, 0 < nn <= 0x1_0000_0000;
    }
    let d: i128 = k * (n as i128);
    let ax = k * st.x - (m00 * ss.x + m01 * ss.y + m02 * ss.z);
    let ay = k * st.y - (m10 * ss.x + m11 * ss.y + m12 * ss.z);
    let az = k * st.z - (m20 * ss.x + m21 * ss.y + m22 * ss.z);
    Vec3 { x: clamp_wide(floor_div(ax, d)), y: clamp_wide(floor_div(ay, d)), z: clamp_wide(floor_div(az, d)) }
}

/// A rotation handed back by the decomposition that `alignment_step` accepts:
/// nonzero, with components within `RAW_QUAT_LIMIT`.
pub open spec fn rotation_usable(q: Quat) -> bool {
    &&& -RAW_QUAT_LIMIT <= q.w <= RAW_QUAT_LIMIT
    &&& -RAW_QUAT_LIMIT <= q.x <= RAW_QUAT_LIMIT
    &&& -RAW_QUAT_LIMIT <= q.y <= RAW_QUAT_LIMIT
    &&& -RAW_QUAT_LIMIT <= q.z <= RAW_QUAT_LIMIT
    &&& !(q.w == 0 && q.x == 0 && q.y == 0 && q.z == 0)
}

/// The incremental transform that an alignment step yields.
pub open spec fn alignment_step_spec(raw: Quat, ss: Sum3, st: Sum3, n: u64) -> Transform {
    let q = normalize_spec(raw.w as int, raw.x as int, raw.y as int, raw.z as int);
    Transform { rotation: q, translation: alignment_translation(q, ss, st, n) }
}

/// Completes a closed-form alignment: normalizes the rotation found by
/// decomposing the cross-covariance, and sets the translation so that the
/// rotated source centroid lands on the target centroid, both taken from
/// the sums of the `n` pairs. `None` when that rotation is zero or its
/// components exceed `RAW_QUAT_LIMIT`.
pub fn alignment_step(raw: &Quat, ss: &Sum3, st: &Sum3, n: u64) -> (r: Option<Transform>)
    requires
        sums_ok(*ss, *st, n),
    ensures
        r is None <==> !rotation_usable(*raw),
        r matches Some(t) ==> t == alignment_step_spec(*raw, *ss, *st, n) && t.wf(),
{
    if raw.w < -RAW_QUAT_LIMIT || raw.w > RAW_QUAT_LIMIT || raw.x < -RAW_QUAT_LIMIT || raw.x > RAW_QUAT_LIMIT
        || raw.y < -RAW_QUAT_LIMIT || raw.y > RAW_QUAT_LIMIT || raw.z < -RAW_QUAT_LIMIT || raw.z > RAW_QUAT_LIMIT
        || raw.is_zero() {
        return None;
    }
    let q = normalize(raw.w, raw.x, raw.y, raw.z);
    Some(Transform { rotation: q, translation: sum_translation(&q, ss, st, n) })
}

/// Every pair's matched point is its placed point moved by `d`.
pub open spec fn offset_by(c: Seq<Correspondence>, d: Vec3) -> bool {
    forall|i: int| 0 <= i < c.len() ==> {
        &&& #[trigger] c[i].matched.x == c[i].placed.x + d.x
        &&& c[i].matched.y == c[i].placed.y + d.y
        &&& c[i].matched.z == c[i].placed.z + d.z
    }
}

proof fn lemma_offset_sums(c: Seq<Correspondence>, d: Vec3, a: int, k: int)
    requires
        0 <= a < 3,
        0 <= k <= c.len(),
        offset_by(c, d),
    ensures
        matched_sum(c, a, k) == placed_sum(c, a, k) + k * coord(d, a),
    decreases k,
{
    if k > 0 {
        lemma_offset_sums(c, d, a, k - 1);
        assert(c[k - 1].matched.x == c[k - 1].placed.x + d.x);
        let e = coord(d, a);
        assert(k * e == (k - 1) * e + e) by (nonlinear_arith);
    } else {
        let e = coord(d, a);
        assert(k * e == 0) by (nonlinear_arith)
            requires k == 0;
    }
}



proof fn lemma_identity_normalized()
    ensures
        normalize_spec(QUAT_ONE as int, 0, 0, 0) == Quat::identity_spec(),
{
    let one = QUAT_ONE as int;
    let n = one * one + 0 * 0 + 0 * 0 + 0 * 0;
    assert(is_isqrt(n, one)) by (nonlinear_arith)
        requires n == one * one, one > 0;
    let s = int_sqrt(n);
    crate::rotation::lemma_isqrt_unique(n, one, s);
    vstd::arithmetic::div_mod::lemma_div_multiples_vanish(one, one);
    assert((0 * one) / one == 0) by (nonlinear_arith)
        requires one > 0;
    assert((one * one) / one == one) by (nonlinear_arith)
        requires one > 0;
}

/// With the identity rotation, pairs that differ by one offset `d` inside
/// the search box give back exactly the offset `d`: given exact
/// correspondences, the alignment step recovers a pure shift.
pub proof fn lemma_translation_recovered(c: Seq<Correspondence>, d: Vec3)
    requires
        pairs_ok(c),
        c.len() <= MAX_POINTS,
        offset_by(c, d),
        d.within(TRANSLATION_LIMIT as int),
    ensures
        alignment_step_spec(Quat::identity_spec(), placed_sums(c), matched_sums(c), c.len() as u64)
            == (Transform { rotation: Quat::identity_spec(), translation: d }),
{
    let n = c.len() as int;
    let q = Quat::identity_spec();
    let k = QUAT_ONE * QUAT_ONE;
    lemma_identity_normalized();
    assert(q.norm2() == k);
    assert(mat(q, 0, 0) == k && mat(q, 1, 1) == k && mat(q, 2, 2) == k);
    assert(mat(q, 0, 1) == 0 && mat(q, 0, 2) == 0 && mat(q, 1, 0) == 0);
    assert(mat(q, 1, 2) == 0 && mat(q, 2, 0) == 0 && mat(q, 2, 1) == 0);
    assert(n * PLACED_LIMIT <= 0x40_0000_0000_0000_0000) by (nonlinear_arith)
        requires 0 < n <= 0x1_0000_0000;
    assert(n * 0x8000_0000 <= 0x8000_0000_0000_0000) by (nonlinear_arith)
        requires 0 < n <= 0x1_0000_0000;
    assert forall|a: int| 0 <= a < 3 implies
        (k * matched_sum(c, a, n) - k * placed_sum(c, a, n)) / (k * n) == #[trigger] coord(d, a)
        && -(n * PLACED_LIMIT) <= placed_sum(c, a, n) <= n * PLACED_LIMIT
        && -(n * 0x8000_0000) <= matched_sum(c, a, n) <= n * 0x8000_0000 by {
        lemma_offset_sums(c, d, a, n);
        lemma_placed_sum_bound(c, a, n);
        lemma_matched_sum_bound(c, a, n);
        let (ps, e) = (placed_sum(c, a, n), coord(d, a));
        assert(k * matched_sum(c, a, n) - k * ps == (k * n) * e) by (nonlinear_arith)
            requires matched_sum(c, a, n) == ps + n * e;
        assert(k * n > 0) by (nonlinear_arith)
            requires n > 0, k > 0;
        vstd::arithmetic::div_mod::lemma_div_multiples_vanish(e, k * n);
    }
    assert(coord(d, 0) == d.x && coord(d, 1) == d.y && coord(d, 2) == d.z);
}

proof fn lemma_matched_sum_bound(c: Seq<Correspondence>, a: int, k: int)
    requires
        0 <= a < 3,
        0 <= k <= c.len(),
    ensures
        -(k * 0x8000_0000) <= matched_sum(c, a, k) <= k * 0x8000_0000,
    decreases k,
{
    if k > 0 {
        lemma_matched_sum_bound(c, a, k - 1);
    }
}

proof fn lemma_placed_sum_bound(c: Seq<Correspondence>, a: int, k: int)
    requires
        pairs_ok(c),
        0 <= a < 3,
        0 <= k <= c.len(),
    ensures
        -(k * PLACED_LIMIT) <= placed_sum(c, a, k) <= k * PLACED_LIMIT,
    decreases k,
{
    if k > 0 {
        lemma_placed_sum_bound(c, a, k - 1);
        assert(c[k - 1].placed.within(PLACED_LIMIT as int));
    }
}

} // verus!
