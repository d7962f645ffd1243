use vstd::prelude::*;

verus! {

/// A sample of a cloud: three integer coordinates in the sensor's unit.
#[derive(Debug, Clone, Copy, PartialEq, Eq, Structural)]
pub struct Point {
    pub x: i32,
    pub y: i32,
    pub z: i32,
}

/// A point after a transform has placed it, or a translation.
#[derive(Debug, Clone, Copy, PartialEq, Eq, Structural)]
pub struct Vec3 {
    pub x: i64,
    pub y: i64,
    pub z: i64,
}

/// Bound on each coordinate of a translation.
pub const TRANSLATION_LIMIT: i64 = 0x10_0000_0000;

/// Bound on each coordinate of a placed point.
pub const PLACED_LIMIT: i64 = 0x40_0000_0000;

/// Largest number of points in a cloud.
pub const MAX_POINTS: u64 = 0x1_0000_0000;

impl Point {
    pub fn new(x: i32, y: i32, z: i32) -> (r: Point)
        ensures
            r == (Point { x, y, z }),
    {
        Point { x, y, z }
    }

    /// The same coordinates as a placed point.
    pub open spec fn lifted(self) -> Vec3 {
        Vec3 { x: self.x as i64, y: self.y as i64, z: self.z as i64 }
    }

    pub fn lift(&self) -> (r: Vec3)
        ensures
            r == self.lifted(),
    {
        Vec3 { x: self.x as i64, y: self.y as i64, z: self.z as i64 }
    }
}

impl Vec3 {
    pub fn new(x: i64, y: i64, z: i64) -> (r: Vec3)
        ensures
            r == (Vec3 { x, y, z }),
    {
        Vec3 { x, y, z }
    }

    /// Each coordinate lies in `[-lim, lim]`.
    pub open spec fn within(self, lim: int) -> bool {
        -lim <= self.x <= lim && -lim <= self.y <= lim && -lim <= self.z <= lim
    }

    pub open spec fn zero() -> Vec3 {
        Vec3 { x: 0, y: 0, z: 0 }
    }
}

/// Squared Euclidean distance from a placed point to a cloud point.
pub open spec fn sq_dist(a: Vec3, b: Point) -> int {
    (a.x - b.x) * (a.x - b.x) + (a.y - b.y) * (a.y - b.y) + (a.z - b.z) * (a.z - b.z)
}

/// Largest value of one squared coordinate difference in `sq_dist` when the
/// placed point is within `PLACED_LIMIT`: `(PLACED_LIMIT + 2^31)^2`.
pub const AXIS_SQ_LIMIT: u128 = 0x1040_4000_0000_0000_0000;

pub proof fn lemma_axis_sq(d: int)
    requires
        -0x40_8000_0000 <= d <= 0x40_8000_0000,
    ensures
        0 <= d * d <= AXIS_SQ_LIMIT,
{
    assert(0 <= d * d <= 0x1040_4000_0000_0000_0000) by (nonlinear_arith)
        requires
            -0x40_8000_0000 <= d <= 0x40_8000_0000,
    ;
}

pub proof fn lemma_sq_dist_range(a: Vec3, b: Point)
    requires
        a.within(PLACED_LIMIT as int),
    ensures
        0 <= sq_dist(a, b) <= 3 * AXIS_SQ_LIMIT,
{
    lemma_axis_sq(a.x - b.x);
    lemma_axis_sq(a.y - b.y);
    lemma_axis_sq(a.z - b.z);
}

/// Squared distance, computed exactly.
pub fn squared_distance(a: &Vec3, b: &Point) -> (r: u128)
    requires
        a.within(PLACED_LIMIT as int),
    ensures
        r == sq_dist(*a, *b),
        r <= 3 * AXIS_SQ_LIMIT,
{
    proof {
        lemma_sq_dist_range(*a, *b);
        lemma_axis_sq(a.x - b.x);
        lemma_axis_sq(a.y - b.y);
        lemma_axis_sq(a.z - b.z);
    }
    let dx: i128 = a.x as i128 - b.x as i128;
    let dy: i128 = a.y as i128 - b.y as i128;
    let dz: i128 = a.z as i128 - b.z as i128;
    (dx * dx + dy * dy + dz * dz) as u128
}

} // verus!
