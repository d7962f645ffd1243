use vstd::prelude::*;
use rand::rngs::StdRng;
use rand::{Rng, SeedableRng};

verus! {

#[verifier::external_type_specification]
#[verifier::external_body]
pub struct ExStdRng(StdRng);

/// Relies on rand's `SeedableRng::seed_from_u64`: a generator whose draws
/// are determined by the seed.
#[verifier::external_body]
pub(crate) fn seeded_rng(seed: u64) -> StdRng {
    StdRng::seed_from_u64(seed)
}

/// Relies on rand's `Rng::gen_range` over an inclusive range: the draw lies
/// in `[lo, hi]` (it panics only on an empty range, which `requires` excludes).
#[verifier::external_body]
pub(crate) fn draw(rng: &mut StdRng, lo: i64, hi: i64) -> (r: i64)
    requires
        lo <= hi,
    ensures
        lo <= r <= hi,
{
    rng.gen_range(lo..=hi)
}

/// A draw from `0..n`.
pub fn draw_index(rng: &mut StdRng, n: usize) -> (r: usize)
    requires
        0 < n <= 0x7fff_ffff_ffff_ffff,
    ensures
        r < n,
{
    let v = draw(rng, 0, (n - 1) as i64);
    v as usize
}

/// A draw from `0..=1000`, the scale of rates and weights.
pub fn draw_permille(rng: &mut StdRng) -> (r: i64)
    ensures
        0 <= r <= 1000,
{
    draw(rng, 0, 1000)
}

} // verus!
