use vstd::prelude::*;
use vstd::arithmetic::div_mod::{lemma_fundamental_div_mod, lemma_fundamental_div_mod_converse};

verus! {

/// Floor division by a positive divisor.
pub fn floor_div(a: i128, d: i128) -> (r: i128)
    requires
        d > 0,
        a > i128::MIN,
    ensures
        r == a / d,
{
    if a >= 0 {
        let q = a / d;
        q
    } else {
        let b: i128 = -a - 1;
        let q = b / d;
        proof {
            lemma_fundamental_div_mod(b as int, d as int);
            let m = b % d;
            assert(0 <= m < d);
            assert(a == (-q - 1) * d + (d - 1 - m)) by (nonlinear_arith)
                requires
                    b == d * q + m,
                    b == -a - 1,
            ;
            lemma_fundamental_div_mod_converse(a as int, d as int, -q - 1, d - 1 - m);
        }
        -q - 1
    }
}

/// Integer square root: the largest `s` with `s * s <= n`.
pub fn isqrt(n: u128) -> (s: u128)
    ensures
        s * s <= n < (s + 1) * (s + 1),
{
    let mut lo: u128 = 0;
    let mut hi: u128 = 0x1_0000_0000_0000_0000;
    assert(n < hi * hi) by (nonlinear_arith)
        requires hi == 0x1_0000_0000_0000_0000, n <= u128::MAX;
    while hi - lo > 1
        invariant
            lo < hi <= 0x1_0000_0000_0000_0000,
            lo * lo <= n < hi * hi,
        decreases hi - lo,
    {
        let mid: u128 = lo + (hi - lo) / 2;
        assert(mid * mid < 0x1_0000_0000_0000_0000 * 0x1_0000_0000_0000_0000) by (nonlinear_arith)
            requires mid < 0x1_0000_0000_0000_0000;
        if mid * mid <= n {
            lo = mid;
        } else {
            hi = mid;
        }
    }
    lo
}

} // verus!
