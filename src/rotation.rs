use vstd::prelude::*;
use crate::arith::{floor_div, isqrt};
use crate::point::{Vec3, PLACED_LIMIT};

verus! {

/// The scale of a normalized quaternion: the integer that stands for 1.
pub const QUAT_ONE: i64 = 0x100_0000;

/// A rotation as an integer quaternion `w + xi + yj + zk`.
///
/// Any nonzero quaternion stands for the rotation `v -> q v q* / |q|^2`,
/// which is exactly proper whatever the scale; a well-formed one keeps
/// its components within `QUAT_ONE` so that products stay small.
#[derive(Debug, Clone, Copy, PartialEq, Eq, Structural)]
pub struct Quat {
    pub w: i64,
    pub x: i64,
    pub y: i64,
    pub z: i64,
}

/// Rotation matrix of `q` scaled by `|q|^2`: entry `(i, j)`.
pub open spec fn mat(q: Quat, i: int, j: int) -> int {
    let (w, x, y, z) = (q.w as int, q.x as int, q.y as int, q.z as int);
    if i == 0 {
        if j == 0 { w * w + x * x - y * y - z * z }
        else if j == 1 { 2 * (x * y - w * z) }
        else { 2 * (x * z + w * y) }
    } else if i == 1 {
        if j == 0 { 2 * (x * y + w * z) }
        else if j == 1 { w * w - x * x + y * y - z * z }
        else { 2 * (y * z - w * x) }
    } else {
        if j == 0 { 2 * (x * z - w * y) }
        else if j == 1 { 2 * (y * z + w * x) }
        else { w * w - x * x - y * y + z * z }
    }
}

/// Row `i` of the scaled matrix applied to `(a, b, c)`.
pub open spec fn mat_row(q: Quat, i: int, a: int, b: int, c: int) -> int {
    mat(q, i, 0) * a + mat(q, i, 1) * b + mat(q, i, 2) * c
}

/// The rotation of `v` by `q`, each coordinate rounded down.
pub open spec fn rotate_spec(q: Quat, v: Vec3) -> Vec3 {
    let n = q.norm2();
    Vec3 {
        x: (mat_row(q, 0, v.x as int, v.y as int, v.z as int) / n) as i64,
        y: (mat_row(q, 1, v.x as int, v.y as int, v.z as int) / n) as i64,
        z: (mat_row(q, 2, v.x as int, v.y as int, v.z as int) / n) as i64,
    }
}

/// Hamilton product `a * b`: the rotation `b` followed by `a`.
pub open spec fn product(a: Quat, b: Quat) -> (int, int, int, int) {
    (
        a.w * b.w - a.x * b.x - a.y * b.y - a.z * b.z,
        a.w * b.x + a.x * b.w + a.y * b.z - a.z * b.y,
        a.w * b.y - a.x * b.z + a.y * b.w + a.z * b.x,
        a.w * b.z + a.x * b.y - a.y * b.x + a.z * b.w,
    )
}

/// One component scaled by `QUAT_ONE / s`, rounded toward zero.
pub open spec fn scale_comp(c: int, s: int) -> int {
    if c >= 0 { (c * QUAT_ONE) / s } else { -((-c * QUAT_ONE) / s) }
}

/// Integer square root, as a spec.
pub open spec fn is_isqrt(n: int, s: int) -> bool {
    0 <= s && s * s <= n < (s + 1) * (s + 1)
}

/// The normalized form of `(w, x, y, z)` given the integer root `s` of its norm.
pub open spec fn normalized(w: int, x: int, y: int, z: int, s: int) -> Quat {
    Quat {
        w: scale_comp(w, s) as i64,
        x: scale_comp(x, s) as i64,
        y: scale_comp(y, s) as i64,
        z: scale_comp(z, s) as i64,
    }
}

impl Quat {
    pub open spec fn norm2(self) -> int {
        self.w * self.w + self.x * self.x + self.y * self.y + self.z * self.z
    }

    /// Nonzero, with every component within `QUAT_ONE`.
    pub open spec fn wf(self) -> bool {
        &&& -QUAT_ONE <= self.w <= QUAT_ONE
        &&& -QUAT_ONE <= self.x <= QUAT_ONE
        &&& -QUAT_ONE <= self.y <= QUAT_ONE
        &&& -QUAT_ONE <= self.z <= QUAT_ONE
        &&& self.norm2() > 0
    }

    pub open spec fn identity_spec() -> Quat {
        Quat { w: QUAT_ONE, x: 0, y: 0, z: 0 }
    }

    pub fn identity() -> (r: Quat)
        ensures
            r == Quat::identity_spec(),
            r.wf(),
    {
        Quat { w: QUAT_ONE, x: 0, y: 0, z: 0 }
    }

    pub fn new(w: i64, x: i64, y: i64, z: i64) -> (r: Quat)
        ensures
            r == (Quat { w, x, y, z }),
    {
        Quat { w, x, y, z }
    }

    pub fn is_zero(&self) -> (r: bool)
        ensures
            r <==> (self.w == 0 && self.x == 0 && self.y == 0 && self.z == 0),
    {
        self.w == 0 && self.x == 0 && self.y == 0 && self.z == 0
    }
}

proof fn lemma_sq_nonneg(a: int)
    ensures
        a * a >= 0,
{
    assert(a * a >= 0) by (nonlinear_arith);
}

proof fn lemma_norm_zero(q: Quat)
    ensures
        q.norm2() >= 0,
        q.norm2() == 0 <==> (q.w == 0 && q.x == 0 && q.y == 0 && q.z == 0),
{
    lemma_sq_nonneg(q.w as int);
    lemma_sq_nonneg(q.x as int);
    lemma_sq_nonneg(q.y as int);
    lemma_sq_nonneg(q.z as int);
    if q.w != 0 {
        assert(q.w * q.w > 0) by (nonlinear_arith) requires q.w != 0;
    }
    if q.x != 0 {
        assert(q.x * q.x > 0) by (nonlinear_arith) requires q.x != 0;
    }
    if q.y != 0 {
        assert(q.y * q.y > 0) by (nonlinear_arith) requires q.y != 0;
    }
    if q.z != 0 {
        assert(q.z * q.z > 0) by (nonlinear_arith) requires q.z != 0;
    }
}

/// A nonzero quaternion is well-formed once its components are in range.
pub proof fn lemma_nonzero_norm(q: Quat)
    requires
        !(q.w == 0 && q.x == 0 && q.y == 0 && q.z == 0),
    ensures
        q.norm2() > 0,
{
    lemma_norm_zero(q);
}

proof fn lemma_two_products(a: int, b: int, c: int, d: int)
    ensures
        -(a * a + b * b + c * c + d * d) <= 2 * (a * b - c * d) <= a * a + b * b + c * c + d * d,
        -(a * a + b * b + c * c + d * d) <= 2 * (a * b + c * d) <= a * a + b * b + c * c + d * d,
{
    assert((a - b) * (a - b) >= 0 && (a + b) * (a + b) >= 0 && (c - d) * (c - d) >= 0 && (c + d) * (c + d) >= 0) by (nonlinear_arith);
    assert(2 * (a * b - c * d) <= a * a + b * b + c * c + d * d) by (nonlinear_arith)
        requires (a - b) * (a - b) >= 0, (c + d) * (c + d) >= 0;
    assert(-(a * a + b * b + c * c + d * d) <= 2 * (a * b - c * d)) by (nonlinear_arith)
        requires (a + b) * (a + b) >= 0, (c - d) * (c - d) >= 0;
    assert(2 * (a * b + c * d) <= a * a + b * b + c * c + d * d) by (nonlinear_arith)
        requires (a - b) * (a - b) >= 0, (c - d) * (c - d) >= 0;
    assert(-(a * a + b * b + c * c + d * d) <= 2 * (a * b + c * d)) by (nonlinear_arith)
        requires (a + b) * (a + b) >= 0, (c + d) * (c + d) >= 0;
}

/// Every entry of the scaled matrix lies within the squared norm.
pub proof fn lemma_mat_entry_bound(q: Quat, i: int, j: int)
    requires
        0 <= i < 3,
        0 <= j < 3,
    ensures
        -q.norm2() <= mat(q, i, j) <= q.norm2(),
{
    let (w, x, y, z) = (q.w as int, q.x as int, q.y as int, q.z as int);
    lemma_sq_nonneg(w);
    lemma_sq_nonneg(x);
    lemma_sq_nonneg(y);
    lemma_sq_nonneg(z);
    lemma_two_products(x, y, w, z);
    lemma_two_products(x, z, w, y);
    lemma_two_products(y, z, w, x);
}

proof fn lemma_mul_bound(m: int, n: int, v: int, l: int)
    requires
        -n <= m <= n,
        -l <= v <= l,
    ensures
        -(n * l) <= m * v <= n * l,
{
    assert(-(n * l) <= m * v <= n * l) by (nonlinear_arith)
        requires -n <= m <= n, -l <= v <= l;
}

/// A row of the scaled matrix applied to a bounded vector stays within `3 n l`.
pub proof fn lemma_row_bound(q: Quat, i: int, a: int, b: int, c: int, l: int)
    requires
        0 <= i < 3,
        -l <= a <= l,
        -l <= b <= l,
        -l <= c <= l,
    ensures
        -(3 * (q.norm2() * l)) <= mat_row(q, i, a, b, c) <= 3 * (q.norm2() * l),
{
    let n = q.norm2();
    lemma_mat_entry_bound(q, i, 0);
    lemma_mat_entry_bound(q, i, 1);
    lemma_mat_entry_bound(q, i, 2);
    lemma_mul_bound(mat(q, i, 0), n, a, l);
    lemma_mul_bound(mat(q, i, 1), n, b, l);
    lemma_mul_bound(mat(q, i, 2), n, c, l);
}

proof fn lemma_div_range(a: int, n: int, k: int)
    requires
        n > 0,
        k >= 0,
        -(k * n) <= a <= k * n,
    ensures
        -k <= a / n <= k,
{
    vstd::arithmetic::div_mod::lemma_fundamental_div_mod(a, n);
    let q = a / n;
    let r = a % n;
    assert(0 <= r < n);
    assert(-k <= q <= k) by (nonlinear_arith)
        requires a == n * q + r, 0 <= r < n, -(k * n) <= a <= k * n, n > 0, k >= 0;
}

/// Rotating a vector whose coordinates lie within `l` gives coordinates within `3 l`.
pub proof fn lemma_rotate_bound(q: Quat, v: Vec3, l: int)
    requires
        q.norm2() > 0,
        l >= 0,
        v.within(l),
        3 * l <= i64::MAX,
    ensures
        rotate_spec(q, v).within(3 * l),
{
    let n = q.norm2();
    lemma_row_bound(q, 0, v.x as int, v.y as int, v.z as int, l);
    lemma_row_bound(q, 1, v.x as int, v.y as int, v.z as int, l);
    lemma_row_bound(q, 2, v.x as int, v.y as int, v.z as int, l);
    assert(3 * (n * l) == (3 * l) * n) by (nonlinear_arith);
    lemma_div_range(mat_row(q, 0, v.x as int, v.y as int, v.z as int), n, 3 * l);
    lemma_div_range(mat_row(q, 1, v.x as int, v.y as int, v.z as int), n, 3 * l);
    lemma_div_range(mat_row(q, 2, v.x as int, v.y as int, v.z as int), n, 3 * l);
}


/// Bound on the components that `normalize` accepts.
pub const RAW_QUAT_LIMIT: i64 = 0x4_0000_0000_0000;

/// The integer square root, as a spec.
pub open spec fn int_sqrt(n: int) -> int {
    choose|s: int| is_isqrt(n, s)
}

pub proof fn lemma_isqrt_unique(n: int, s: int, t: int)
    requires
        is_isqrt(n, s),
        is_isqrt(n, t),
    ensures
        s == t,
{
    if s < t {
        assert((s + 1) * (s + 1) <= t * t) by (nonlinear_arith)
            requires 0 <= s, s + 1 <= t;
    }
    if t < s {
        assert((t + 1) * (t + 1) <= s * s) by (nonlinear_arith)
            requires 0 <= t, t + 1 <= s;
    }
}

/// `normalize` applied to raw components: each is scaled by `QUAT_ONE / sqrt(n)`.
pub open spec fn normalize_spec(w: int, x: int, y: int, z: int) -> Quat {
    normalized(w, x, y, z, int_sqrt(w * w + x * x + y * y + z * z))
}

proof fn lemma_root_bounds(c: int, n: int, s: int)
    requires
        is_isqrt(n, s),
        0 <= c * c <= n,
    ensures
        -s <= c <= s,
{
    if c > s {
        assert((s + 1) * (s + 1) <= c * c) by (nonlinear_arith)
            requires 0 <= s, s + 1 <= c;
    }
    if c < -s {
        assert((s + 1) * (s + 1) <= c * c) by (nonlinear_arith)
            requires 0 <= s, c <= -(s + 1);
    }
}

proof fn lemma_scale_comp_bound(c: int, s: int)
    requires
        s > 0,
        -s <= c <= s,
    ensures
        -QUAT_ONE <= scale_comp(c, s) <= QUAT_ONE,
        c != 0 && 2 * (if c >= 0 { c } else { -c }) >= s ==> scale_comp(c, s) != 0,
{
    let a = if c >= 0 { c } else { -c };
    let one = QUAT_ONE as int;
    assert(0 <= a * one <= s * one) by (nonlinear_arith)
        requires 0 <= a <= s, one > 0;
    vstd::arithmetic::div_mod::lemma_div_is_ordered(a * one, s * one, s);
    vstd::arithmetic::div_mod::lemma_div_multiples_vanish(one, s);
    assert(s * one == one * s) by (nonlinear_arith);
    vstd::arithmetic::div_mod::lemma_div_pos_is_pos(a * one, s);
    if c != 0 && 2 * a >= s {
        assert(a * one >= s) by (nonlinear_arith)
            requires 2 * a >= s, a >= 1, one >= 2;
        vstd::arithmetic::div_mod::lemma_div_is_ordered(s, a * one, s);
        vstd::arithmetic::div_mod::lemma_div_by_self(s);
    }
}

proof fn lemma_square_bound(c: int, l: int)
    requires
        -l <= c <= l,
    ensures
        0 <= c * c <= l * l,
{
    assert(0 <= c * c <= l * l) by (nonlinear_arith)
        requires -l <= c <= l;
}

/// Rescales a nonzero quaternion to components of magnitude at most `QUAT_ONE`,
/// rounding toward zero; the rotation it stands for is kept up to that rounding.
pub fn normalize(w: i64, x: i64, y: i64, z: i64) -> (r: Quat)
    requires
        -RAW_QUAT_LIMIT <= w <= RAW_QUAT_LIMIT,
        -RAW_QUAT_LIMIT <= x <= RAW_QUAT_LIMIT,
        -RAW_QUAT_LIMIT <= y <= RAW_QUAT_LIMIT,
        -RAW_QUAT_LIMIT <= z <= RAW_QUAT_LIMIT,
        !(w == 0 && x == 0 && y == 0 && z == 0),
    ensures
        r == normalize_spec(w as int, x as int, y as int, z as int),
        r.wf(),
{
    let ghost l = RAW_QUAT_LIMIT as int;
    proof {
        lemma_square_bound(w as int, l);
        lemma_square_bound(x as int, l);
        lemma_square_bound(y as int, l);
        lemma_square_bound(z as int, l);
        lemma_norm_zero(Quat { w, x, y, z });
    }
    let (wi, xi, yi, zi) = (w as i128, x as i128, y as i128, z as i128);
    let n: i128 = wi * wi + xi * xi + yi * yi + zi * zi;
    let ghost ni = n as int;
    assert(0 < ni <= 0x40000000000000000000000000);
    let su = isqrt(n as u128);
    assert(su <= 0x8000000000000) by (nonlinear_arith)
        requires su * su <= ni, ni <= 0x40000000000000000000000000;
    let s = su as i128;
    proof {
        assert(is_isqrt(ni, s as int));
        lemma_isqrt_unique(ni, s as int, int_sqrt(ni));
        assert(s >= 1) by (nonlinear_arith)
            requires 0 <= s, ni < (s + 1) * (s + 1), ni >= 1;
        lemma_root_bounds(w as int, ni, s as int);
        lemma_root_bounds(x as int, ni, s as int);
        lemma_root_bounds(y as int, ni, s as int);
        lemma_root_bounds(z as int, ni, s as int);
        lemma_scale_comp_bound(w as int, s as int);
        lemma_scale_comp_bound(x as int, s as int);
        lemma_scale_comp_bound(y as int, s as int);
        lemma_scale_comp_bound(z as int, s as int);
        let aw = if w >= 0 { w as int } else { -w };
        let ax = if x >= 0 { x as int } else { -x };
        let ay = if y >= 0 { y as int } else { -y };
        let az = if z >= 0 { z as int } else { -z };
        assert(aw * aw == w * w && ax * ax == x * x && ay * ay == y * y && az * az == z * z) by (nonlinear_arith)
            requires aw == (if w >= 0 { w as int } else { -w }), ax == (if x >= 0 { x as int } else { -x }),
                ay == (if y >= 0 { y as int } else { -y }), az == (if z >= 0 { z as int } else { -z });
        assert(2 * aw >= s || 2 * ax >= s || 2 * ay >= s || 2 * az >= s) by (nonlinear_arith)
            requires aw >= 0, ax >= 0, ay >= 0, az >= 0, s >= 0,
                s * s <= aw * aw + ax * ax + ay * ay + az * az;
        assert((w != 0 && 2 * aw >= s) || (x != 0 && 2 * ax >= s) || (y != 0 && 2 * ay >= s) || (z != 0 && 2 * az >= s));
    }
    let r = Quat {
        w: scale_one(wi, s) as i64,
        x: scale_one(xi, s) as i64,
        y: scale_one(yi, s) as i64,
        z: scale_one(zi, s) as i64,
    };
    proof {
        lemma_nonzero_norm(r);
    }
    r
}

fn scale_one(c: i128, s: i128) -> (r: i128)
    requires
        s > 0,
        -s <= c <= s,
        -RAW_QUAT_LIMIT <= c <= RAW_QUAT_LIMIT,
    ensures
        r == scale_comp(c as int, s as int),
{
    let one = QUAT_ONE as i128;
    if c >= 0 {
        assert(0 <= c * one <= RAW_QUAT_LIMIT * QUAT_ONE) by (nonlinear_arith)
            requires 0 <= c <= RAW_QUAT_LIMIT, one == QUAT_ONE;
        c * one / s
    } else {
        assert(0 <= (-c) * one <= RAW_QUAT_LIMIT * QUAT_ONE) by (nonlinear_arith)
            requires 0 <= -c <= RAW_QUAT_LIMIT, one == QUAT_ONE;
        -((-c) * one / s)
    }
}


pub proof fn lemma_comp_products(a: int, b: int)
    requires
        -QUAT_ONE <= a <= QUAT_ONE,
        -QUAT_ONE <= b <= QUAT_ONE,
    ensures
        -0x1_0000_0000_0000 <= a * b <= 0x1_0000_0000_0000,
{
    assert(-0x1_0000_0000_0000 <= a * b <= 0x1_0000_0000_0000) by (nonlinear_arith)
        requires -0x100_0000 <= a <= 0x100_0000, -0x100_0000 <= b <= 0x100_0000;
}

proof fn lemma_entry_times(m: int, n: int, v: int)
    requires
        -n <= m <= n,
        0 < n <= 0x4_0000_0000_0000,
        -PLACED_LIMIT <= v <= PLACED_LIMIT,
    ensures
        -0x100_0000_0000_0000_0000_0000 <= m * v <= 0x100_0000_0000_0000_0000_0000,
{
    assert(-0x100_0000_0000_0000_0000_0000 <= m * v <= 0x100_0000_0000_0000_0000_0000) by (nonlinear_arith)
        requires -n <= m <= n, 0 < n <= 0x4_0000_0000_0000, -0x40_0000_0000 <= v <= 0x40_0000_0000;
}

/// Rotates `v` by `q`, rounding each coordinate down.
pub fn rotate(q: &Quat, v: &Vec3) -> (r: Vec3)
    requires
        q.wf(),
        v.within(PLACED_LIMIT as int),
    ensures
        r == rotate_spec(*q, *v),
{
    proof {
        lemma_comp_products(q.w as int, q.w as int);
        lemma_comp_products(q.x as int, q.x as int);
        lemma_comp_products(q.y as int, q.y as int);
        lemma_comp_products(q.z as int, q.z as int);
        lemma_comp_products(q.x as int, q.y as int);
        lemma_comp_products(q.x as int, q.z as int);
        lemma_comp_products(q.y as int, q.z as int);
        lemma_comp_products(q.w as int, q.x as int);
        lemma_comp_products(q.w as int, q.y as int);
        lemma_comp_products(q.w as int, q.z as int);
    }
    let (w, x, y, z) = (q.w as i128, q.x as i128, q.y as i128, q.z as i128);
    let (ww, xx, yy, zz) = (w * w, x * x, y * y, z * z);
    let (xy, xz, yz, wx, wy, wz) = (x * y, x * z, y * z, w * x, w * y, w * z);
    let n: i128 = ww + xx + yy + zz;
    let m00 = ww + xx - yy - zz;
    let m01 = 2 * (xy - wz);
    let m02 = 2 * (xz + wy);
    let m10 = 2 * (xy + wz);
    let m11 = ww - xx + yy - zz;
    let m12 = 2 * (yz - wx);
    let m20 = 2 * (xz - wy);
    let m21 = 2 * (yz + wx);
    let m22 = ww - xx - yy + zz;
    let (vx, vy, vz) = (v.x as i128, v.y as i128, v.z as i128);
    proof {
        assert(n == q.norm2());
        assert(m00 == mat(*q, 0, 0) && m01 == mat(*q, 0, 1) && m02 == mat(*q, 0, 2));
        assert(m10 == mat(*q, 1, 0) && m11 == mat(*q, 1, 1) && m12 == mat(*q, 1, 2));
        assert(m20 == mat(*q, 2, 0) && m21 == mat(*q, 2, 1) && m22 == mat(*q, 2, 2));
        let nn = n as int;
        lemma_mat_entry_bound(*q, 0, 0);
        lemma_mat_entry_bound(*q, 0, 1);
        lemma_mat_entry_bound(*q, 0, 2);
        lemma_mat_entry_bound(*q, 1, 0);
        lemma_mat_entry_bound(*q, 1, 1);
        lemma_mat_entry_bound(*q, 1, 2);
        lemma_mat_entry_bound(*q, 2, 0);
        lemma_mat_entry_bound(*q, 2, 1);
        lemma_mat_entry_bound(*q, 2, 2);
        lemma_entry_times(m00 as int, nn, vx as int);
        lemma_entry_times(m01 as int, nn, vy as int);
        lemma_entry_times(m02 as int, nn, vz as int);
        lemma_entry_times(m10 as int, nn, vx as int);
        lemma_entry_times(m11 as int, nn, vy as int);
        lemma_entry_times(m12 as int, nn, vz as int);
        lemma_entry_times(m20 as int, nn, vx as int);
        lemma_entry_times(m21 as int, nn, vy as int);
        lemma_entry_times(m22 as int, nn, vz as int);
        lemma_rotate_bound(*q, *v, PLACED_LIMIT as int);
    }
    let a = m00 * vx + m01 * vy + m02 * vz;
    let b = m10 * vx + m11 * vy + m12 * vz;
    let c = m20 * vx + m21 * vy + m22 * vz;
    Vec3 { x: floor_div(a, n) as i64, y: floor_div(b, n) as i64, z: floor_div(c, n) as i64 }
}

/// The product `a * b` of two well-formed quaternions, normalized. The
/// product never vanishes (`lemma_product_nonzero`).
pub fn compose_rotations(a: &Quat, b: &Quat) -> (r: Quat)
    requires
        a.wf(),
        b.wf(),
    ensures
        r == normalize_spec(product(*a, *b).0, product(*a, *b).1, product(*a, *b).2, product(*a, *b).3),
        r.wf(),
{
    proof {
        let (p, q) = (*a, *b);
        lemma_comp_products(p.w as int, q.w as int);
        lemma_comp_products(p.w as int, q.x as int);
        lemma_comp_products(p.w as int, q.y as int);
        lemma_comp_products(p.w as int, q.z as int);
        lemma_comp_products(p.x as int, q.w as int);
        lemma_comp_products(p.x as int, q.x as int);
        lemma_comp_products(p.x as int, q.y as int);
        lemma_comp_products(p.x as int, q.z as int);
        lemma_comp_products(p.y as int, q.w as int);
        lemma_comp_products(p.y as int, q.x as int);
        lemma_comp_products(p.y as int, q.y as int);
        lemma_comp_products(p.y as int, q.z as int);
        lemma_comp_products(p.z as int, q.w as int);
        lemma_comp_products(p.z as int, q.x as int);
        lemma_comp_products(p.z as int, q.y as int);
        lemma_comp_products(p.z as int, q.z as int);
    }
    let w = a.w * b.w - a.x * b.x - a.y * b.y - a.z * b.z;
    let x = a.w * b.x + a.x * b.w + a.y * b.z - a.z * b.y;
    let y = a.w * b.y - a.x * b.z + a.y * b.w + a.z * b.x;
    let z = a.w * b.z + a.x * b.y - a.y * b.x + a.z * b.w;
    proof {
        lemma_product_nonzero(*a, *b);
    }
    normalize(w, x, y, z)
}

/// The four-dimensional dot product of two well-formed quaternions.
pub fn quat_dot(a: &Quat, b: &Quat) -> (r: i128)
    requires
        a.wf(),
        b.wf(),
    ensures
        r == a.w * b.w + a.x * b.x + a.y * b.y + a.z * b.z,
{
    proof {
        lemma_comp_products(a.w as int, b.w as int);
        lemma_comp_products(a.x as int, b.x as int);
        lemma_comp_products(a.y as int, b.y as int);
        lemma_comp_products(a.z as int, b.z as int);
    }
    a.w as i128 * b.w as i128 + a.x as i128 * b.x as i128 + a.y as i128 * b.y as i128 + a.z as i128 * b.z as i128
}

/// Dot product of rows `i` and `k` of the scaled matrix.
pub open spec fn row_dot(q: Quat, i: int, k: int) -> int {
    mat(q, i, 0) * mat(q, k, 0) + mat(q, i, 1) * mat(q, k, 1) + mat(q, i, 2) * mat(q, k, 2)
}

/// Determinant of the scaled matrix.
pub open spec fn mat_det(q: Quat) -> int {
    mat(q, 0, 0) * (mat(q, 1, 1) * mat(q, 2, 2) - mat(q, 1, 2) * mat(q, 2, 1))
        - mat(q, 0, 1) * (mat(q, 1, 0) * mat(q, 2, 2) - mat(q, 1, 2) * mat(q, 2, 0))
        + mat(q, 0, 2) * (mat(q, 1, 0) * mat(q, 2, 1) - mat(q, 1, 1) * mat(q, 2, 0))
}

/// Every rotation the library applies is proper. For any quaternion `q`
/// with squared norm `n`, the scaled matrix `mat(q)` times its transpose is
/// `n^2` times the identity, and its determinant is `n^3`; so `mat(q) / n`,
/// the matrix `rotate_spec` applies, is orthonormal with determinant one:
/// never a reflection, whatever the scale of `q`.
pub proof fn lemma_rotation_proper(q: Quat)
    ensures
        forall|i: int, k: int| 0 <= i < 3 && 0 <= k < 3 ==>
            #[trigger] row_dot(q, i, k) == if i == k { q.norm2() * q.norm2() } else { 0 },
        mat_det(q) == q.norm2() * (q.norm2() * q.norm2()),
{
    let (w, x, y, z) = (q.w as int, q.x as int, q.y as int, q.z as int);
    crate::proper::lemma_rows_orthogonal(w, x, y, z);
    crate::proper::lemma_det_cube(w, x, y, z);
    assert forall|i: int, k: int| 0 <= i < 3 && 0 <= k < 3 implies
        #[trigger] row_dot(q, i, k) == if i == k { q.norm2() * q.norm2() } else { 0 } by {
        if i == 0 && k == 0 {} else if i == 0 && k == 1 {} else if i == 0 && k == 2 {}
        else if i == 1 && k == 0 {} else if i == 1 && k == 1 {} else if i == 1 && k == 2 {}
        else if i == 2 && k == 0 {} else if i == 2 && k == 1 {} else {}
    }
}

/// The product of two nonzero quaternions is nonzero: its squared norm is
/// the product of theirs.
pub proof fn lemma_product_nonzero(a: Quat, b: Quat)
    requires
        a.norm2() > 0,
        b.norm2() > 0,
    ensures
        product(a, b) != (0int, 0int, 0int, 0int),
{
    crate::proper::lemma_four_squares(a.w as int, a.x as int, a.y as int, a.z as int, b.w as int, b.x as int, b.y as int, b.z as int);
    let (na, nb) = (a.norm2(), b.norm2());
    assert(na * nb > 0) by (nonlinear_arith)
        requires na > 0, nb > 0;
    let p = product(a, b);
    if p == (0int, 0int, 0int, 0int) {
        assert(p.0 * p.0 + p.1 * p.1 + p.2 * p.2 + p.3 * p.3 == 0) by (nonlinear_arith)
            requires p.0 == 0, p.1 == 0, p.2 == 0, p.3 == 0;
    }
}

} // verus!
