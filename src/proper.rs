//! The algebra behind `rotation::lemma_rotation_proper`: the matrix of a
//! quaternion, scaled by its squared norm `n`, has orthogonal rows of squared
//! length `n^2` and determinant `n^3`; and behind `lemma_product_nonzero`:
//! the squared norm of a product is the product of the squared norms.
//!
//! These are polynomial identities of degree four and six, too large for the
//! solver's nonlinear mode in one piece. Each is split into products of
//! quadratic terms (`w * w`, `x * y`, ...) expanded two factors at a time, and
//! rearrangements of equal monomials, which linear reasoning then adds up.
use vstd::prelude::*;

verus! {

proof fn lemma_expand_00_00(a: int, b: int, c: int, d: int) by (nonlinear_arith)
    ensures
        (a + b - c - d) * (a + b - c - d) == 0 + 1 * (a * a) + 2 * (a * b) - 2 * (a * c) - 2 * (a * d) + 1 * (b * b) - 2 * (b * c) - 2 * (b * d) + 1 * (c * c) + 2 * (c * d) + 1 * (d * d),
{
}

proof fn lemma_expand_01_01(p: int, q: int) by (nonlinear_arith)
    ensures
        (2 * (p - q)) * (2 * (p - q)) == 0 + 4 * (p * p) - 8 * (p * q) + 4 * (q * q),
{
}

proof fn lemma_expand_02_02(r: int, s: int) by (nonlinear_arith)
    ensures
        (2 * (r + s)) * (2 * (r + s)) == 0 + 4 * (r * r) + 8 * (r * s) + 4 * (s * s),
{
}

proof fn lemma_expand_00_10(a: int, b: int, c: int, d: int, p: int, q: int) by (nonlinear_arith)
    ensures
        (a + b - c - d) * (2 * (p + q)) == 0 + 2 * (a * p) + 2 * (a * q) + 2 * (b * p) + 2 * (b * q) - 2 * (c * p) - 2 * (c * q) - 2 * (d * p) - 2 * (d * q),
{
}

proof fn lemma_expand_01_11(a: int, b: int, c: int, d: int, p: int, q: int) by (nonlinear_arith)
    ensures
        (2 * (p - q)) * (a - b + c - d) == 0 + 2 * (a * p) - 2 * (a * q) - 2 * (b * p) + 2 * (b * q) + 2 * (c * p) - 2 * (c * q) - 2 * (d * p) + 2 * (d * q),
{
}

proof fn lemma_expand_02_12(r: int, s: int, t: int, u: int) by (nonlinear_arith)
    ensures
        (2 * (r + s)) * (2 * (t - u)) == 0 + 4 * (r * t) - 4 * (r * u) + 4 * (s * t) - 4 * (s * u),
{
}

proof fn lemma_expand_00_20(a: int, b: int, c: int, d: int, r: int, s: int) by (nonlinear_arith)
    ensures
        (a + b - c - d) * (2 * (r - s)) == 0 + 2 * (a * r) - 2 * (a * s) + 2 * (b * r) - 2 * (b * s) - 2 * (c * r) + 2 * (c * s) - 2 * (d * r) + 2 * (d * s),
{
}

proof fn lemma_expand_01_21(p: int, q: int, t: int, u: int) by (nonlinear_arith)
    ensures
        (2 * (p - q)) * (2 * (t + u)) == 0 + 4 * (p * t) + 4 * (p * u) - 4 * (q * t) - 4 * (q * u),
{
}

proof fn lemma_expand_02_22(a: int, b: int, c: int, d: int, r: int, s: int) by (nonlinear_arith)
    ensures
        (2 * (r + s)) * (a - b - c + d) == 0 + 2 * (a * r) + 2 * (a * s) - 2 * (b * r) - 2 * (b * s) - 2 * (c * r) - 2 * (c * s) + 2 * (d * r) + 2 * (d * s),
{
}

proof fn lemma_expand_10_00(a: int, b: int, c: int, d: int, p: int, q: int) by (nonlinear_arith)
    ensures
        (2 * (p + q)) * (a + b - c - d) == 0 + 2 * (a * p) + 2 * (a * q) + 2 * (b * p) + 2 * (b * q) - 2 * (c * p) - 2 * (c * q) - 2 * (d * p) - 2 * (d * q),
{
}

proof fn lemma_expand_11_01(a: int, b: int, c: int, d: int, p: int, q: int) by (nonlinear_arith)
    ensures
        (a - b + c - d) * (2 * (p - q)) == 0 + 2 * (a * p) - 2 * (a * q) - 2 * (b * p) + 2 * (b * q) + 2 * (c * p) - 2 * (c * q) - 2 * (d * p) + 2 * (d * q),
{
}

proof fn lemma_expand_12_02(r: int, s: int, t: int, u: int) by (nonlinear_arith)
    ensures
        (2 * (t - u)) * (2 * (r + s)) == 0 + 4 * (r * t) - 4 * (r * u) + 4 * (s * t) - 4 * (s * u),
{
}

proof fn lemma_expand_10_10(p: int, q: int) by (nonlinear_arith)
    ensures
        (2 * (p + q)) * (2 * (p + q)) == 0 + 4 * (p * p) + 8 * (p * q) + 4 * (q * q),
{
}

proof fn lemma_expand_11_11(a: int, b: int, c: int, d: int) by (nonlinear_arith)
    ensures
        (a - b + c - d) * (a - b + c - d) == 0 + 1 * (a * a) - 2 * (a * b) + 2 * (a * c) - 2 * (a * d) + 1 * (b * b) - 2 * (b * c) + 2 * (b * d) + 1 * (c * c) - 2 * (c * d) + 1 * (d * d),
{
}

proof fn lemma_expand_12_12(t: int, u: int) by (nonlinear_arith)
    ensures
        (2 * (t - u)) * (2 * (t - u)) == 0 + 4 * (t * t) - 8 * (t * u) + 4 * (u * u),
{
}

proof fn lemma_expand_10_20(p: int, q: int, r: int, s: int) by (nonlinear_arith)
    ensures
        (2 * (p + q)) * (2 * (r - s)) == 0 + 4 * (p * r) - 4 * (p * s) + 4 * (q * r) - 4 * (q * s),
{
}

proof fn lemma_expand_11_21(a: int, b: int, c: int, d: int, t: int, u: int) by (nonlinear_arith)
    ensures
        (a - b + c - d) * (2 * (t + u)) == 0 + 2 * (a * t) + 2 * (a * u) - 2 * (b * t) - 2 * (b * u) + 2 * (c * t) + 2 * (c * u) - 2 * (d * t) - 2 * (d * u),
{
}

proof fn lemma_expand_12_22(a: int, b: int, c: int, d: int, t: int, u: int) by (nonlinear_arith)
    ensures
        (2 * (t - u)) * (a - b - c + d) == 0 + 2 * (a * t) - 2 * (a * u) - 2 * (b * t) + 2 * (b * u) - 2 * (c * t) + 2 * (c * u) + 2 * (d * t) - 2 * (d * u),
{
}

proof fn lemma_expand_20_00(a: int, b: int, c: int, d: int, r: int, s: int) by (nonlinear_arith)
    ensures
        (2 * (r - s)) * (a + b - c - d) == 0 + 2 * (a * r) - 2 * (a * s) + 2 * (b * r) - 2 * (b * s) - 2 * (c * r) + 2 * (c * s) - 2 * (d * r) + 2 * (d * s),
{
}

proof fn lemma_expand_21_01(p: int, q: int, t: int, u: int) by (nonlinear_arith)
    ensures
        (2 * (t + u)) * (2 * (p - q)) == 0 + 4 * (p * t) + 4 * (p * u) - 4 * (q * t) - 4 * (q * u),
{
}

proof fn lemma_expand_22_02(a: int, b: int, c: int, d: int, r: int, s: int) by (nonlinear_arith)
    ensures
        (a - b - c + d) * (2 * (r + s)) == 0 + 2 * (a * r) + 2 * (a * s) - 2 * (b * r) - 2 * (b * s) - 2 * (c * r) - 2 * (c * s) + 2 * (d * r) + 2 * (d * s),
{
}

proof fn lemma_expand_20_10(p: int, q: int, r: int, s: int) by (nonlinear_arith)
    ensures
        (2 * (r - s)) * (2 * (p + q)) == 0 + 4 * (p * r) - 4 * (p * s) + 4 * (q * r) - 4 * (q * s),
{
}

proof fn lemma_expand_21_11(a: int, b: int, c: int, d: int, t: int, u: int) by (nonlinear_arith)
    ensures
        (2 * (t + u)) * (a - b + c - d) == 0 + 2 * (a * t) + 2 * (a * u) - 2 * (b * t) - 2 * (b * u) + 2 * (c * t) + 2 * (c * u) - 2 * (d * t) - 2 * (d * u),
{
}

proof fn lemma_expand_22_12(a: int, b: int, c: int, d: int, t: int, u: int) by (nonlinear_arith)
    ensures
        (a - b - c + d) * (2 * (t - u)) == 0 + 2 * (a * t) - 2 * (a * u) - 2 * (b * t) + 2 * (b * u) - 2 * (c * t) + 2 * (c * u) + 2 * (d * t) - 2 * (d * u),
{
}

proof fn lemma_expand_20_20(r: int, s: int) by (nonlinear_arith)
    ensures
        (2 * (r - s)) * (2 * (r - s)) == 0 + 4 * (r * r) - 8 * (r * s) + 4 * (s * s),
{
}

proof fn lemma_expand_21_21(t: int, u: int) by (nonlinear_arith)
    ensures
        (2 * (t + u)) * (2 * (t + u)) == 0 + 4 * (t * t) + 8 * (t * u) + 4 * (u * u),
{
}

proof fn lemma_expand_22_22(a: int, b: int, c: int, d: int) by (nonlinear_arith)
    ensures
        (a - b - c + d) * (a - b - c + d) == 0 + 1 * (a * a) - 2 * (a * b) - 2 * (a * c) + 2 * (a * d) + 1 * (b * b) + 2 * (b * c) - 2 * (b * d) + 1 * (c * c) - 2 * (c * d) + 1 * (d * d),
{
}

proof fn lemma_expand_norm(a: int, b: int, c: int, d: int) by (nonlinear_arith)
    ensures
        (a + b + c + d) * (a + b + c + d) == 0 + 1 * (a * a) + 2 * (a * b) + 2 * (a * c) + 2 * (a * d) + 1 * (b * b) + 2 * (b * c) + 2 * (b * d) + 1 * (c * c) + 2 * (c * d) + 1 * (d * d),
{
}

proof fn lemma_same_monomial_0(w: int, x: int, y: int, z: int) by (nonlinear_arith)
    ensures
        (y * y) * (z * z) == (y * z) * (y * z),
{
}

proof fn lemma_same_monomial_1(w: int, x: int, y: int, z: int) by (nonlinear_arith)
    ensures
        (w * w) * (x * z) == (w * z) * (w * x),
{
}

proof fn lemma_same_monomial_2(w: int, x: int, y: int, z: int) by (nonlinear_arith)
    ensures
        (w * w) * (y * z) == (w * z) * (w * y),
{
}

proof fn lemma_same_monomial_3(w: int, x: int, y: int, z: int) by (nonlinear_arith)
    ensures
        (x * x) * (y * y) == (x * y) * (x * y),
{
}

proof fn lemma_same_monomial_4(w: int, x: int, y: int, z: int) by (nonlinear_arith)
    ensures
        (x * x) * (z * z) == (x * z) * (x * z),
{
}

proof fn lemma_same_monomial_5(w: int, x: int, y: int, z: int) by (nonlinear_arith)
    ensures
        (y * y) * (w * x) == (x * y) * (w * y),
{
}

proof fn lemma_same_monomial_6(w: int, x: int, y: int, z: int) by (nonlinear_arith)
    ensures
        (w * w) * (x * x) == (w * x) * (w * x),
{
}

proof fn lemma_same_monomial_7(w: int, x: int, y: int, z: int) by (nonlinear_arith)
    ensures
        (w * w) * (z * z) == (w * z) * (w * z),
{
}

proof fn lemma_same_monomial_8(w: int, x: int, y: int, z: int) by (nonlinear_arith)
    ensures
        (z * z) * (x * y) == (x * z) * (y * z),
{
}

proof fn lemma_same_monomial_9(w: int, x: int, y: int, z: int) by (nonlinear_arith)
    ensures
        (y * y) * (w * z) == (w * y) * (y * z),
{
}

proof fn lemma_same_monomial_10(w: int, x: int, y: int, z: int) by (nonlinear_arith)
    ensures
        (z * z) * (w * y) == (w * z) * (y * z),
{
}

proof fn lemma_same_monomial_11(w: int, x: int, y: int, z: int) by (nonlinear_arith)
    ensures
        (z * z) * (w * x) == (w * z) * (x * z),
{
}

proof fn lemma_same_monomial_12(w: int, x: int, y: int, z: int) by (nonlinear_arith)
    ensures
        (x * y) * (w * z) == (x * z) * (w * y),
{
}

proof fn lemma_same_monomial_13(w: int, x: int, y: int, z: int) by (nonlinear_arith)
    ensures
        (x * y) * (w * z) == (y * z) * (w * x),
{
}

proof fn lemma_same_monomial_14(w: int, x: int, y: int, z: int) by (nonlinear_arith)
    ensures
        (w * w) * (y * y) == (w * y) * (w * y),
{
}

proof fn lemma_same_monomial_15(w: int, x: int, y: int, z: int) by (nonlinear_arith)
    ensures
        (x * x) * (y * z) == (x * y) * (x * z),
{
}

proof fn lemma_same_monomial_16(w: int, x: int, y: int, z: int) by (nonlinear_arith)
    ensures
        (y * y) * (x * z) == (x * y) * (y * z),
{
}

proof fn lemma_same_monomial_17(w: int, x: int, y: int, z: int) by (nonlinear_arith)
    ensures
        (x * x) * (w * z) == (x * z) * (w * x),
{
}

proof fn lemma_same_monomial_18(w: int, x: int, y: int, z: int) by (nonlinear_arith)
    ensures
        (w * w) * (x * y) == (w * y) * (w * x),
{
}

proof fn lemma_same_monomial_19(w: int, x: int, y: int, z: int) by (nonlinear_arith)
    ensures
        (x * x) * (w * y) == (x * y) * (w * x),
{
}

/// The rows of the scaled matrix are orthogonal, each of squared length `n^2`.
pub proof fn lemma_rows_orthogonal(w: int, x: int, y: int, z: int)
    ensures
        ((w * w) + (x * x) - (y * y) - (z * z)) * ((w * w) + (x * x) - (y * y) - (z * z)) + (2 * ((x * y) - (w * z))) * (2 * ((x * y) - (w * z))) + (2 * ((x * z) + (w * y))) * (2 * ((x * z) + (w * y)))
            == (w * w + x * x + y * y + z * z) * (w * w + x * x + y * y + z * z),
        ((w * w) + (x * x) - (y * y) - (z * z)) * (2 * ((x * y) + (w * z))) + (2 * ((x * y) - (w * z))) * ((w * w) - (x * x) + (y * y) - (z * z)) + (2 * ((x * z) + (w * y))) * (2 * ((y * z) - (w * x)))
            == 0,
        ((w * w) + (x * x) - (y * y) - (z * z)) * (2 * ((x * z) - (w * y))) + (2 * ((x * y) - (w * z))) * (2 * ((y * z) + (w * x))) + (2 * ((x * z) + (w * y))) * ((w * w) - (x * x) - (y * y) + (z * z))
            == 0,
        (2 * ((x * y) + (w * z))) * ((w * w) + (x * x) - (y * y) - (z * z)) + ((w * w) - (x * x) + (y * y) - (z * z)) * (2 * ((x * y) - (w * z))) + (2 * ((y * z) - (w * x))) * (2 * ((x * z) + (w * y)))
            == 0,
        (2 * ((x * y) + (w * z))) * (2 * ((x * y) + (w * z))) + ((w * w) - (x * x) + (y * y) - (z * z)) * ((w * w) - (x * x) + (y * y) - (z * z)) + (2 * ((y * z) - (w * x))) * (2 * ((y * z) - (w * x)))
            == (w * w + x * x + y * y + z * z) * (w * w + x * x + y * y + z * z),
        (2 * ((x * y) + (w * z))) * (2 * ((x * z) - (w * y))) + ((w * w) - (x * x) + (y * y) - (z * z)) * (2 * ((y * z) + (w * x))) + (2 * ((y * z) - (w * x))) * ((w * w) - (x * x) - (y * y) + (z * z))
            == 0,
        (2 * ((x * z) - (w * y))) * ((w * w) + (x * x) - (y * y) - (z * z)) + (2 * ((y * z) + (w * x))) * (2 * ((x * y) - (w * z))) + ((w * w) - (x * x) - (y * y) + (z * z)) * (2 * ((x * z) + (w * y)))
            == 0,
        (2 * ((x * z) - (w * y))) * (2 * ((x * y) + (w * z))) + (2 * ((y * z) + (w * x))) * ((w * w) - (x * x) + (y * y) - (z * z)) + ((w * w) - (x * x) - (y * y) + (z * z)) * (2 * ((y * z) - (w * x)))
            == 0,
        (2 * ((x * z) - (w * y))) * (2 * ((x * z) - (w * y))) + (2 * ((y * z) + (w * x))) * (2 * ((y * z) + (w * x))) + ((w * w) - (x * x) - (y * y) + (z * z)) * ((w * w) - (x * x) - (y * y) + (z * z))
            == (w * w + x * x + y * y + z * z) * (w * w + x * x + y * y + z * z),
{
    lemma_expand_00_00(w * w, x * x, y * y, z * z);
    lemma_expand_01_01(x * y, w * z);
    lemma_expand_02_02(x * z, w * y);
    lemma_expand_00_10(w * w, x * x, y * y, z * z, x * y, w * z);
    lemma_expand_01_11(w * w, x * x, y * y, z * z, x * y, w * z);
    lemma_expand_02_12(x * z, w * y, y * z, w * x);
    lemma_expand_00_20(w * w, x * x, y * y, z * z, x * z, w * y);
    lemma_expand_01_21(x * y, w * z, y * z, w * x);
    lemma_expand_02_22(w * w, x * x, y * y, z * z, x * z, w * y);
    lemma_expand_10_00(w * w, x * x, y * y, z * z, x * y, w * z);
    lemma_expand_11_01(w * w, x * x, y * y, z * z, x * y, w * z);
    lemma_expand_12_02(x * z, w * y, y * z, w * x);
    lemma_expand_10_10(x * y, w * z);
    lemma_expand_11_11(w * w, x * x, y * y, z * z);
    lemma_expand_12_12(y * z, w * x);
    lemma_expand_10_20(x * y, w * z, x * z, w * y);
    lemma_expand_11_21(w * w, x * x, y * y, z * z, y * z, w * x);
    lemma_expand_12_22(w * w, x * x, y * y, z * z, y * z, w * x);
    lemma_expand_20_00(w * w, x * x, y * y, z * z, x * z, w * y);
    lemma_expand_21_01(x * y, w * z, y * z, w * x);
    lemma_expand_22_02(w * w, x * x, y * y, z * z, x * z, w * y);
    lemma_expand_20_10(x * y, w * z, x * z, w * y);
    lemma_expand_21_11(w * w, x * x, y * y, z * z, y * z, w * x);
    lemma_expand_22_12(w * w, x * x, y * y, z * z, y * z, w * x);
    lemma_expand_20_20(x * z, w * y);
    lemma_expand_21_21(y * z, w * x);
    lemma_expand_22_22(w * w, x * x, y * y, z * z);
    lemma_expand_norm(w * w, x * x, y * y, z * z);
    lemma_same_monomial_0(w, x, y, z);
    lemma_same_monomial_1(w, x, y, z);
    lemma_same_monomial_2(w, x, y, z);
    lemma_same_monomial_3(w, x, y, z);
    lemma_same_monomial_4(w, x, y, z);
    lemma_same_monomial_5(w, x, y, z);
    lemma_same_monomial_6(w, x, y, z);
    lemma_same_monomial_7(w, x, y, z);
    lemma_same_monomial_8(w, x, y, z);
    lemma_same_monomial_9(w, x, y, z);
    lemma_same_monomial_10(w, x, y, z);
    lemma_same_monomial_11(w, x, y, z);
    lemma_same_monomial_12(w, x, y, z);
    lemma_same_monomial_13(w, x, y, z);
    lemma_same_monomial_14(w, x, y, z);
    lemma_same_monomial_15(w, x, y, z);
    lemma_same_monomial_16(w, x, y, z);
    lemma_same_monomial_17(w, x, y, z);
    lemma_same_monomial_18(w, x, y, z);
    lemma_same_monomial_19(w, x, y, z);
}

proof fn lemma_minor_11_22(a: int, b: int, c: int, d: int) by (nonlinear_arith)
    ensures
        (a - b + c - d) * (a - b - c + d) == 0 + 1 * (a * a) - 2 * (a * b) + 1 * (b * b) - 1 * (c * c) + 2 * (c * d) - 1 * (d * d),
{
}

proof fn lemma_minor_12_21(t: int, u: int) by (nonlinear_arith)
    ensures
        (2 * (t - u)) * (2 * (t + u)) == 0 + 4 * (t * t) - 4 * (u * u),
{
}

proof fn lemma_outer_0(a: int, b: int, c: int, d: int, m: int) by (nonlinear_arith)
    ensures
        (a + b - c - d) * m == 0 + 1 * (a * m) + 1 * (b * m) - 1 * (c * m) - 1 * (d * m),
{
}

proof fn lemma_spread_0_a(g: int, xx: int, yy: int, e0: int, e1: int, e2: int, e3: int, e4: int, e5: int, e6: int, e7: int) by (nonlinear_arith)
    requires
        xx == 0 + 1 * e0 - 2 * e1 + 1 * e2 - 1 * e3 + 2 * e4 - 1 * e5,
        yy == 0 + 4 * e6 - 4 * e7,
    ensures
        g * (xx - yy) == 0 + 1 * (g * e0) - 2 * (g * e1) + 1 * (g * e2) - 1 * (g * e3) + 2 * (g * e4) - 1 * (g * e5) - 4 * (g * e6) + 4 * (g * e7),
{
}

proof fn lemma_spread_0_b(g: int, xx: int, yy: int, e0: int, e1: int, e2: int, e3: int, e4: int, e5: int, e6: int, e7: int) by (nonlinear_arith)
    requires
        xx == 0 + 1 * e0 - 2 * e1 + 1 * e2 - 1 * e3 + 2 * e4 - 1 * e5,
        yy == 0 + 4 * e6 - 4 * e7,
    ensures
        g * (xx - yy) == 0 + 1 * (g * e0) - 2 * (g * e1) + 1 * (g * e2) - 1 * (g * e3) + 2 * (g * e4) - 1 * (g * e5) - 4 * (g * e6) + 4 * (g * e7),
{
}

proof fn lemma_spread_0_c(g: int, xx: int, yy: int, e0: int, e1: int, e2: int, e3: int, e4: int, e5: int, e6: int, e7: int) by (nonlinear_arith)
    requires
        xx == 0 + 1 * e0 - 2 * e1 + 1 * e2 - 1 * e3 + 2 * e4 - 1 * e5,
        yy == 0 + 4 * e6 - 4 * e7,
    ensures
        g * (xx - yy) == 0 + 1 * (g * e0) - 2 * (g * e1) + 1 * (g * e2) - 1 * (g * e3) + 2 * (g * e4) - 1 * (g * e5) - 4 * (g * e6) + 4 * (g * e7),
{
}

proof fn lemma_spread_0_d(g: int, xx: int, yy: int, e0: int, e1: int, e2: int, e3: int, e4: int, e5: int, e6: int, e7: int) by (nonlinear_arith)
    requires
        xx == 0 + 1 * e0 - 2 * e1 + 1 * e2 - 1 * e3 + 2 * e4 - 1 * e5,
        yy == 0 + 4 * e6 - 4 * e7,
    ensures
        g * (xx - yy) == 0 + 1 * (g * e0) - 2 * (g * e1) + 1 * (g * e2) - 1 * (g * e3) + 2 * (g * e4) - 1 * (g * e5) - 4 * (g * e6) + 4 * (g * e7),
{
}

proof fn lemma_minor_10_22(a: int, b: int, c: int, d: int, p: int, q: int) by (nonlinear_arith)
    ensures
        (2 * (p + q)) * (a - b - c + d) == 0 + 2 * (a * p) + 2 * (a * q) - 2 * (b * p) - 2 * (b * q) - 2 * (c * p) - 2 * (c * q) + 2 * (d * p) + 2 * (d * q),
{
}

proof fn lemma_minor_12_20(r: int, s: int, t: int, u: int) by (nonlinear_arith)
    ensures
        (2 * (t - u)) * (2 * (r - s)) == 0 + 4 * (r * t) - 4 * (r * u) - 4 * (s * t) + 4 * (s * u),
{
}

proof fn lemma_outer_1(p: int, q: int, m: int) by (nonlinear_arith)
    ensures
        (2 * (p - q)) * m == 0 + 2 * (p * m) - 2 * (q * m),
{
}

proof fn lemma_spread_1_p(g: int, xx: int, yy: int, e0: int, e1: int, e2: int, e3: int, e4: int, e5: int, e6: int, e7: int, e8: int, e9: int, e10: int, e11: int) by (nonlinear_arith)
    requires
        xx == 0 + 2 * e0 + 2 * e1 - 2 * e2 - 2 * e3 - 2 * e4 - 2 * e5 + 2 * e6 + 2 * e7,
        yy == 0 + 4 * e8 - 4 * e9 - 4 * e10 + 4 * e11,
    ensures
        g * (xx - yy) == 0 + 2 * (g * e0) + 2 * (g * e1) - 2 * (g * e2) - 2 * (g * e3) - 2 * (g * e4) - 2 * (g * e5) + 2 * (g * e6) + 2 * (g * e7) - 4 * (g * e8) + 4 * (g * e9) + 4 * (g * e10) - 4 * (g * e11),
{
}

proof fn lemma_spread_1_q(g: int, xx: int, yy: int, e0: int, e1: int, e2: int, e3: int, e4: int, e5: int, e6: int, e7: int, e8: int, e9: int, e10: int, e11: int) by (nonlinear_arith)
    requires
        xx == 0 + 2 * e0 + 2 * e1 - 2 * e2 - 2 * e3 - 2 * e4 - 2 * e5 + 2 * e6 + 2 * e7,
        yy == 0 + 4 * e8 - 4 * e9 - 4 * e10 + 4 * e11,
    ensures
        g * (xx - yy) == 0 + 2 * (g * e0) + 2 * (g * e1) - 2 * (g * e2) - 2 * (g * e3) - 2 * (g * e4) - 2 * (g * e5) + 2 * (g * e6) + 2 * (g * e7) - 4 * (g * e8) + 4 * (g * e9) + 4 * (g * e10) - 4 * (g * e11),
{
}

proof fn lemma_minor_10_21(p: int, q: int, t: int, u: int) by (nonlinear_arith)
    ensures
        (2 * (p + q)) * (2 * (t + u)) == 0 + 4 * (p * t) + 4 * (p * u) + 4 * (q * t) + 4 * (q * u),
{
}

proof fn lemma_minor_11_20(a: int, b: int, c: int, d: int, r: int, s: int) by (nonlinear_arith)
    ensures
        (a - b + c - d) * (2 * (r - s)) == 0 + 2 * (a * r) - 2 * (a * s) - 2 * (b * r) + 2 * (b * s) + 2 * (c * r) - 2 * (c * s) - 2 * (d * r) + 2 * (d * s),
{
}

proof fn lemma_outer_2(r: int, s: int, m: int) by (nonlinear_arith)
    ensures
        (2 * (r + s)) * m == 0 + 2 * (r * m) + 2 * (s * m),
{
}

proof fn lemma_spread_2_r(g: int, xx: int, yy: int, e0: int, e1: int, e2: int, e3: int, e4: int, e5: int, e6: int, e7: int, e8: int, e9: int, e10: int, e11: int) by (nonlinear_arith)
    requires
        xx == 0 + 4 * e8 + 4 * e9 + 4 * e10 + 4 * e11,
        yy == 0 + 2 * e0 - 2 * e1 - 2 * e2 + 2 * e3 + 2 * e4 - 2 * e5 - 2 * e6 + 2 * e7,
    ensures
        g * (xx - yy) == 0 - 2 * (g * e0) + 2 * (g * e1) + 2 * (g * e2) - 2 * (g * e3) - 2 * (g * e4) + 2 * (g * e5) + 2 * (g * e6) - 2 * (g * e7) + 4 * (g * e8) + 4 * (g * e9) + 4 * (g * e10) + 4 * (g * e11),
{
}

proof fn lemma_spread_2_s(g: int, xx: int, yy: int, e0: int, e1: int, e2: int, e3: int, e4: int, e5: int, e6: int, e7: int, e8: int, e9: int, e10: int, e11: int) by (nonlinear_arith)
    requires
        xx == 0 + 4 * e8 + 4 * e9 + 4 * e10 + 4 * e11,
        yy == 0 + 2 * e0 - 2 * e1 - 2 * e2 + 2 * e3 + 2 * e4 - 2 * e5 - 2 * e6 + 2 * e7,
    ensures
        g * (xx - yy) == 0 - 2 * (g * e0) + 2 * (g * e1) + 2 * (g * e2) - 2 * (g * e3) - 2 * (g * e4) + 2 * (g * e5) + 2 * (g * e6) - 2 * (g * e7) + 4 * (g * e8) + 4 * (g * e9) + 4 * (g * e10) + 4 * (g * e11),
{
}

proof fn lemma_outer_norm(a: int, b: int, c: int, d: int, m: int) by (nonlinear_arith)
    ensures
        (a + b + c + d) * m == 0 + 1 * (a * m) + 1 * (b * m) + 1 * (c * m) + 1 * (d * m),
{
}

proof fn lemma_spread_norm(g: int, xx: int, e0: int, e1: int, e2: int, e3: int, e4: int, e5: int, e6: int, e7: int, e8: int, e9: int) by (nonlinear_arith)
    requires
        xx == 0 + 1 * e0 + 2 * e1 + 2 * e2 + 2 * e3 + 1 * e4 + 2 * e5 + 2 * e6 + 1 * e7 + 2 * e8 + 1 * e9,
    ensures
        g * xx == 0 + 1 * (g * e0) + 2 * (g * e1) + 2 * (g * e2) + 2 * (g * e3) + 1 * (g * e4) + 2 * (g * e5) + 2 * (g * e6) + 1 * (g * e7) + 2 * (g * e8) + 1 * (g * e9),
{
}

proof fn lemma_same_sextic_0(w: int, x: int, y: int, z: int) by (nonlinear_arith)
    ensures
        (x * x) * ((y * y) * (z * z)) == (x * x) * ((y * z) * (y * z)),
{
}

proof fn lemma_same_sextic_1(w: int, x: int, y: int, z: int) by (nonlinear_arith)
    ensures
        (x * x) * ((y * y) * (z * z)) == (y * y) * ((x * x) * (z * z)),
{
}

proof fn lemma_same_sextic_2(w: int, x: int, y: int, z: int) by (nonlinear_arith)
    ensures
        (x * x) * ((y * y) * (z * z)) == (z * z) * ((x * x) * (y * y)),
{
}

proof fn lemma_same_sextic_3(w: int, x: int, y: int, z: int) by (nonlinear_arith)
    ensures
        (x * x) * ((y * y) * (z * z)) == (x * y) * ((z * z) * (x * y)),
{
}

proof fn lemma_same_sextic_4(w: int, x: int, y: int, z: int) by (nonlinear_arith)
    ensures
        (x * x) * ((y * y) * (z * z)) == (x * y) * ((x * z) * (y * z)),
{
}

proof fn lemma_same_sextic_5(w: int, x: int, y: int, z: int) by (nonlinear_arith)
    ensures
        (x * x) * ((y * y) * (z * z)) == (x * z) * ((y * y) * (x * z)),
{
}

proof fn lemma_same_sextic_6(w: int, x: int, y: int, z: int) by (nonlinear_arith)
    ensures
        (x * x) * ((y * y) * (z * z)) == (x * z) * ((x * y) * (y * z)),
{
}

proof fn lemma_same_sextic_7(w: int, x: int, y: int, z: int) by (nonlinear_arith)
    ensures
        (x * y) * ((x * x) * (w * z)) == (x * y) * ((x * z) * (w * x)),
{
}

proof fn lemma_same_sextic_8(w: int, x: int, y: int, z: int) by (nonlinear_arith)
    ensures
        (x * y) * ((x * x) * (w * z)) == (w * z) * ((x * x) * (x * y)),
{
}

proof fn lemma_same_sextic_9(w: int, x: int, y: int, z: int) by (nonlinear_arith)
    ensures
        (x * y) * ((x * x) * (w * z)) == (x * z) * ((x * x) * (w * y)),
{
}

proof fn lemma_same_sextic_10(w: int, x: int, y: int, z: int) by (nonlinear_arith)
    ensures
        (x * y) * ((x * x) * (w * z)) == (x * z) * ((x * y) * (w * x)),
{
}

proof fn lemma_same_sextic_11(w: int, x: int, y: int, z: int) by (nonlinear_arith)
    ensures
        (x * y) * ((x * x) * (w * z)) == (w * y) * ((x * x) * (x * z)),
{
}

proof fn lemma_same_sextic_12(w: int, x: int, y: int, z: int) by (nonlinear_arith)
    ensures
        (x * y) * ((w * w) * (w * z)) == (w * z) * ((w * w) * (x * y)),
{
}

proof fn lemma_same_sextic_13(w: int, x: int, y: int, z: int) by (nonlinear_arith)
    ensures
        (x * y) * ((w * w) * (w * z)) == (w * z) * ((w * y) * (w * x)),
{
}

proof fn lemma_same_sextic_14(w: int, x: int, y: int, z: int) by (nonlinear_arith)
    ensures
        (x * y) * ((w * w) * (w * z)) == (x * z) * ((w * w) * (w * y)),
{
}

proof fn lemma_same_sextic_15(w: int, x: int, y: int, z: int) by (nonlinear_arith)
    ensures
        (x * y) * ((w * w) * (w * z)) == (w * y) * ((w * w) * (x * z)),
{
}

proof fn lemma_same_sextic_16(w: int, x: int, y: int, z: int) by (nonlinear_arith)
    ensures
        (x * y) * ((w * w) * (w * z)) == (w * y) * ((w * z) * (w * x)),
{
}

proof fn lemma_same_sextic_17(w: int, x: int, y: int, z: int) by (nonlinear_arith)
    ensures
        (w * w) * ((w * w) * (y * y)) == (y * y) * ((w * w) * (w * w)),
{
}

proof fn lemma_same_sextic_18(w: int, x: int, y: int, z: int) by (nonlinear_arith)
    ensures
        (w * w) * ((w * w) * (y * y)) == (w * y) * ((w * w) * (w * y)),
{
}

proof fn lemma_same_sextic_19(w: int, x: int, y: int, z: int) by (nonlinear_arith)
    ensures
        (w * w) * ((y * y) * (z * z)) == (w * w) * ((y * z) * (y * z)),
{
}

proof fn lemma_same_sextic_20(w: int, x: int, y: int, z: int) by (nonlinear_arith)
    ensures
        (w * w) * ((y * y) * (z * z)) == (y * y) * ((w * w) * (z * z)),
{
}

proof fn lemma_same_sextic_21(w: int, x: int, y: int, z: int) by (nonlinear_arith)
    ensures
        (w * w) * ((y * y) * (z * z)) == (z * z) * ((w * w) * (y * y)),
{
}

proof fn lemma_same_sextic_22(w: int, x: int, y: int, z: int) by (nonlinear_arith)
    ensures
        (w * w) * ((y * y) * (z * z)) == (w * z) * ((y * y) * (w * z)),
{
}

proof fn lemma_same_sextic_23(w: int, x: int, y: int, z: int) by (nonlinear_arith)
    ensures
        (w * w) * ((y * y) * (z * z)) == (w * z) * ((w * y) * (y * z)),
{
}

proof fn lemma_same_sextic_24(w: int, x: int, y: int, z: int) by (nonlinear_arith)
    ensures
        (w * w) * ((y * y) * (z * z)) == (w * y) * ((z * z) * (w * y)),
{
}

proof fn lemma_same_sextic_25(w: int, x: int, y: int, z: int) by (nonlinear_arith)
    ensures
        (w * w) * ((y * y) * (z * z)) == (w * y) * ((w * z) * (y * z)),
{
}

proof fn lemma_same_sextic_26(w: int, x: int, y: int, z: int) by (nonlinear_arith)
    ensures
        (x * x) * ((x * x) * (z * z)) == (z * z) * ((x * x) * (x * x)),
{
}

proof fn lemma_same_sextic_27(w: int, x: int, y: int, z: int) by (nonlinear_arith)
    ensures
        (x * x) * ((x * x) * (z * z)) == (x * z) * ((x * x) * (x * z)),
{
}

proof fn lemma_same_sextic_28(w: int, x: int, y: int, z: int) by (nonlinear_arith)
    ensures
        (x * y) * ((y * y) * (w * z)) == (x * y) * ((w * y) * (y * z)),
{
}

proof fn lemma_same_sextic_29(w: int, x: int, y: int, z: int) by (nonlinear_arith)
    ensures
        (x * y) * ((y * y) * (w * z)) == (w * z) * ((y * y) * (x * y)),
{
}

proof fn lemma_same_sextic_30(w: int, x: int, y: int, z: int) by (nonlinear_arith)
    ensures
        (x * y) * ((y * y) * (w * z)) == (x * z) * ((y * y) * (w * y)),
{
}

proof fn lemma_same_sextic_31(w: int, x: int, y: int, z: int) by (nonlinear_arith)
    ensures
        (x * y) * ((y * y) * (w * z)) == (w * y) * ((y * y) * (x * z)),
{
}

proof fn lemma_same_sextic_32(w: int, x: int, y: int, z: int) by (nonlinear_arith)
    ensures
        (x * y) * ((y * y) * (w * z)) == (w * y) * ((x * y) * (y * z)),
{
}

proof fn lemma_same_sextic_33(w: int, x: int, y: int, z: int) by (nonlinear_arith)
    ensures
        (w * w) * ((x * x) * (z * z)) == (x * x) * ((w * w) * (z * z)),
{
}

proof fn lemma_same_sextic_34(w: int, x: int, y: int, z: int) by (nonlinear_arith)
    ensures
        (w * w) * ((x * x) * (z * z)) == (z * z) * ((w * w) * (x * x)),
{
}

proof fn lemma_same_sextic_35(w: int, x: int, y: int, z: int) by (nonlinear_arith)
    ensures
        (w * w) * ((x * x) * (z * z)) == (z * z) * ((w * x) * (w * x)),
{
}

proof fn lemma_same_sextic_36(w: int, x: int, y: int, z: int) by (nonlinear_arith)
    ensures
        (w * w) * ((x * x) * (z * z)) == (w * z) * ((x * x) * (w * z)),
{
}

proof fn lemma_same_sextic_37(w: int, x: int, y: int, z: int) by (nonlinear_arith)
    ensures
        (w * w) * ((x * x) * (z * z)) == (w * z) * ((x * z) * (w * x)),
{
}

proof fn lemma_same_sextic_38(w: int, x: int, y: int, z: int) by (nonlinear_arith)
    ensures
        (w * w) * ((x * x) * (z * z)) == (x * z) * ((w * w) * (x * z)),
{
}

proof fn lemma_same_sextic_39(w: int, x: int, y: int, z: int) by (nonlinear_arith)
    ensures
        (w * w) * ((x * x) * (z * z)) == (x * z) * ((w * z) * (w * x)),
{
}

proof fn lemma_same_sextic_40(w: int, x: int, y: int, z: int) by (nonlinear_arith)
    ensures
        (x * x) * ((z * z) * (z * z)) == (z * z) * ((x * x) * (z * z)),
{
}

proof fn lemma_same_sextic_41(w: int, x: int, y: int, z: int) by (nonlinear_arith)
    ensures
        (x * x) * ((z * z) * (z * z)) == (x * z) * ((z * z) * (x * z)),
{
}

proof fn lemma_same_sextic_42(w: int, x: int, y: int, z: int) by (nonlinear_arith)
    ensures
        (x * x) * ((y * y) * (y * y)) == (y * y) * ((x * x) * (y * y)),
{
}

proof fn lemma_same_sextic_43(w: int, x: int, y: int, z: int) by (nonlinear_arith)
    ensures
        (x * x) * ((y * y) * (y * y)) == (x * y) * ((y * y) * (x * y)),
{
}

proof fn lemma_same_sextic_44(w: int, x: int, y: int, z: int) by (nonlinear_arith)
    ensures
        (x * y) * ((z * z) * (w * z)) == (w * z) * ((z * z) * (x * y)),
{
}

proof fn lemma_same_sextic_45(w: int, x: int, y: int, z: int) by (nonlinear_arith)
    ensures
        (x * y) * ((z * z) * (w * z)) == (w * z) * ((x * z) * (y * z)),
{
}

proof fn lemma_same_sextic_46(w: int, x: int, y: int, z: int) by (nonlinear_arith)
    ensures
        (x * y) * ((z * z) * (w * z)) == (x * z) * ((z * z) * (w * y)),
{
}

proof fn lemma_same_sextic_47(w: int, x: int, y: int, z: int) by (nonlinear_arith)
    ensures
        (x * y) * ((z * z) * (w * z)) == (x * z) * ((w * z) * (y * z)),
{
}

proof fn lemma_same_sextic_48(w: int, x: int, y: int, z: int) by (nonlinear_arith)
    ensures
        (x * y) * ((z * z) * (w * z)) == (w * y) * ((z * z) * (x * z)),
{
}

proof fn lemma_same_sextic_49(w: int, x: int, y: int, z: int) by (nonlinear_arith)
    ensures
        (w * w) * ((y * y) * (y * y)) == (y * y) * ((w * w) * (y * y)),
{
}

proof fn lemma_same_sextic_50(w: int, x: int, y: int, z: int) by (nonlinear_arith)
    ensures
        (w * w) * ((y * y) * (y * y)) == (w * y) * ((y * y) * (w * y)),
{
}

proof fn lemma_same_sextic_51(w: int, x: int, y: int, z: int) by (nonlinear_arith)
    ensures
        (y * y) * ((z * z) * (z * z)) == (z * z) * ((y * y) * (z * z)),
{
}

proof fn lemma_same_sextic_52(w: int, x: int, y: int, z: int) by (nonlinear_arith)
    ensures
        (y * y) * ((z * z) * (z * z)) == (z * z) * ((y * z) * (y * z)),
{
}

proof fn lemma_same_sextic_53(w: int, x: int, y: int, z: int) by (nonlinear_arith)
    ensures
        (y * y) * ((y * y) * (z * z)) == (y * y) * ((y * z) * (y * z)),
{
}

proof fn lemma_same_sextic_54(w: int, x: int, y: int, z: int) by (nonlinear_arith)
    ensures
        (y * y) * ((y * y) * (z * z)) == (z * z) * ((y * y) * (y * y)),
{
}

proof fn lemma_same_sextic_55(w: int, x: int, y: int, z: int) by (nonlinear_arith)
    ensures
        (w * w) * ((w * w) * (z * z)) == (z * z) * ((w * w) * (w * w)),
{
}

proof fn lemma_same_sextic_56(w: int, x: int, y: int, z: int) by (nonlinear_arith)
    ensures
        (w * w) * ((w * w) * (z * z)) == (w * z) * ((w * w) * (w * z)),
{
}

proof fn lemma_same_sextic_57(w: int, x: int, y: int, z: int) by (nonlinear_arith)
    ensures
        (w * w) * ((w * w) * (x * x)) == (w * w) * ((w * x) * (w * x)),
{
}

proof fn lemma_same_sextic_58(w: int, x: int, y: int, z: int) by (nonlinear_arith)
    ensures
        (w * w) * ((w * w) * (x * x)) == (x * x) * ((w * w) * (w * w)),
{
}

proof fn lemma_same_sextic_59(w: int, x: int, y: int, z: int) by (nonlinear_arith)
    ensures
        (w * w) * ((z * z) * (z * z)) == (z * z) * ((w * w) * (z * z)),
{
}

proof fn lemma_same_sextic_60(w: int, x: int, y: int, z: int) by (nonlinear_arith)
    ensures
        (w * w) * ((z * z) * (z * z)) == (w * z) * ((z * z) * (w * z)),
{
}

proof fn lemma_same_sextic_61(w: int, x: int, y: int, z: int) by (nonlinear_arith)
    ensures
        (w * w) * ((x * x) * (y * y)) == (x * x) * ((w * w) * (y * y)),
{
}

proof fn lemma_same_sextic_62(w: int, x: int, y: int, z: int) by (nonlinear_arith)
    ensures
        (w * w) * ((x * x) * (y * y)) == (y * y) * ((w * w) * (x * x)),
{
}

proof fn lemma_same_sextic_63(w: int, x: int, y: int, z: int) by (nonlinear_arith)
    ensures
        (w * w) * ((x * x) * (y * y)) == (y * y) * ((w * x) * (w * x)),
{
}

proof fn lemma_same_sextic_64(w: int, x: int, y: int, z: int) by (nonlinear_arith)
    ensures
        (w * w) * ((x * x) * (y * y)) == (x * y) * ((w * w) * (x * y)),
{
}

proof fn lemma_same_sextic_65(w: int, x: int, y: int, z: int) by (nonlinear_arith)
    ensures
        (w * w) * ((x * x) * (y * y)) == (x * y) * ((w * y) * (w * x)),
{
}

proof fn lemma_same_sextic_66(w: int, x: int, y: int, z: int) by (nonlinear_arith)
    ensures
        (w * w) * ((x * x) * (y * y)) == (w * y) * ((x * x) * (w * y)),
{
}

proof fn lemma_same_sextic_67(w: int, x: int, y: int, z: int) by (nonlinear_arith)
    ensures
        (w * w) * ((x * x) * (y * y)) == (w * y) * ((x * y) * (w * x)),
{
}

proof fn lemma_same_sextic_68(w: int, x: int, y: int, z: int) by (nonlinear_arith)
    ensures
        (x * x) * ((x * x) * (y * y)) == (y * y) * ((x * x) * (x * x)),
{
}

proof fn lemma_same_sextic_69(w: int, x: int, y: int, z: int) by (nonlinear_arith)
    ensures
        (x * x) * ((x * x) * (y * y)) == (x * y) * ((x * x) * (x * y)),
{
}

proof fn lemma_same_sextic_70(w: int, x: int, y: int, z: int) by (nonlinear_arith)
    ensures
        (w * w) * ((x * x) * (x * x)) == (x * x) * ((w * w) * (x * x)),
{
}

proof fn lemma_same_sextic_71(w: int, x: int, y: int, z: int) by (nonlinear_arith)
    ensures
        (w * w) * ((x * x) * (x * x)) == (x * x) * ((w * x) * (w * x)),
{
}

/// The determinant of the scaled matrix is `n^3`.
pub proof fn lemma_det_cube(w: int, x: int, y: int, z: int)
    ensures
        ((w * w) + (x * x) - (y * y) - (z * z)) * (((w * w) - (x * x) + (y * y) - (z * z)) * ((w * w) - (x * x) - (y * y) + (z * z)) - (2 * ((y * z) - (w * x))) * (2 * ((y * z) + (w * x))))
            - (2 * ((x * y) - (w * z))) * ((2 * ((x * y) + (w * z))) * ((w * w) - (x * x) - (y * y) + (z * z)) - (2 * ((y * z) - (w * x))) * (2 * ((x * z) - (w * y))))
            + (2 * ((x * z) + (w * y))) * ((2 * ((x * y) + (w * z))) * (2 * ((y * z) + (w * x))) - ((w * w) - (x * x) + (y * y) - (z * z)) * (2 * ((x * z) - (w * y))))
            == (w * w + x * x + y * y + z * z) * ((w * w + x * x + y * y + z * z) * (w * w + x * x + y * y + z * z)),
{
    lemma_minor_11_22(w * w, x * x, y * y, z * z);
    lemma_minor_12_21(y * z, w * x);
    lemma_outer_0(w * w, x * x, y * y, z * z, (((w * w) - (x * x) + (y * y) - (z * z)) * ((w * w) - (x * x) - (y * y) + (z * z)) - (2 * ((y * z) - (w * x))) * (2 * ((y * z) + (w * x)))));
    lemma_spread_0_a(w * w, ((w * w) - (x * x) + (y * y) - (z * z)) * ((w * w) - (x * x) - (y * y) + (z * z)), (2 * ((y * z) - (w * x))) * (2 * ((y * z) + (w * x))), ((w * w) * (w * w)), ((w * w) * (x * x)), ((x * x) * (x * x)), ((y * y) * (y * y)), ((y * y) * (z * z)), ((z * z) * (z * z)), ((y * z) * (y * z)), ((w * x) * (w * x)));
    lemma_spread_0_b(x * x, ((w * w) - (x * x) + (y * y) - (z * z)) * ((w * w) - (x * x) - (y * y) + (z * z)), (2 * ((y * z) - (w * x))) * (2 * ((y * z) + (w * x))), ((w * w) * (w * w)), ((w * w) * (x * x)), ((x * x) * (x * x)), ((y * y) * (y * y)), ((y * y) * (z * z)), ((z * z) * (z * z)), ((y * z) * (y * z)), ((w * x) * (w * x)));
    lemma_spread_0_c(y * y, ((w * w) - (x * x) + (y * y) - (z * z)) * ((w * w) - (x * x) - (y * y) + (z * z)), (2 * ((y * z) - (w * x))) * (2 * ((y * z) + (w * x))), ((w * w) * (w * w)), ((w * w) * (x * x)), ((x * x) * (x * x)), ((y * y) * (y * y)), ((y * y) * (z * z)), ((z * z) * (z * z)), ((y * z) * (y * z)), ((w * x) * (w * x)));
    lemma_spread_0_d(z * z, ((w * w) - (x * x) + (y * y) - (z * z)) * ((w * w) - (x * x) - (y * y) + (z * z)), (2 * ((y * z) - (w * x))) * (2 * ((y * z) + (w * x))), ((w * w) * (w * w)), ((w * w) * (x * x)), ((x * x) * (x * x)), ((y * y) * (y * y)), ((y * y) * (z * z)), ((z * z) * (z * z)), ((y * z) * (y * z)), ((w * x) * (w * x)));
    lemma_minor_10_22(w * w, x * x, y * y, z * z, x * y, w * z);
    lemma_minor_12_20(x * z, w * y, y * z, w * x);
    lemma_outer_1(x * y, w * z, ((2 * ((x * y) + (w * z))) * ((w * w) - (x * x) - (y * y) + (z * z)) - (2 * ((y * z) - (w * x))) * (2 * ((x * z) - (w * y)))));
    lemma_spread_1_p(x * y, (2 * ((x * y) + (w * z))) * ((w * w) - (x * x) - (y * y) + (z * z)), (2 * ((y * z) - (w * x))) * (2 * ((x * z) - (w * y))), ((w * w) * (x * y)), ((w * w) * (w * z)), ((x * x) * (x * y)), ((x * x) * (w * z)), ((y * y) * (x * y)), ((y * y) * (w * z)), ((z * z) * (x * y)), ((z * z) * (w * z)), ((x * z) * (y * z)), ((x * z) * (w * x)), ((w * y) * (y * z)), ((w * y) * (w * x)));
    lemma_spread_1_q(w * z, (2 * ((x * y) + (w * z))) * ((w * w) - (x * x) - (y * y) + (z * z)), (2 * ((y * z) - (w * x))) * (2 * ((x * z) - (w * y))), ((w * w) * (x * y)), ((w * w) * (w * z)), ((x * x) * (x * y)), ((x * x) * (w * z)), ((y * y) * (x * y)), ((y * y) * (w * z)), ((z * z) * (x * y)), ((z * z) * (w * z)), ((x * z) * (y * z)), ((x * z) * (w * x)), ((w * y) * (y * z)), ((w * y) * (w * x)));
    lemma_minor_10_21(x * y, w * z, y * z, w * x);
    lemma_minor_11_20(w * w, x * x, y * y, z * z, x * z, w * y);
    lemma_outer_2(x * z, w * y, ((2 * ((x * y) + (w * z))) * (2 * ((y * z) + (w * x))) - ((w * w) - (x * x) + (y * y) - (z * z)) * (2 * ((x * z) - (w * y)))));
    lemma_spread_2_r(x * z, (2 * ((x * y) + (w * z))) * (2 * ((y * z) + (w * x))), ((w * w) - (x * x) + (y * y) - (z * z)) * (2 * ((x * z) - (w * y))), ((w * w) * (x * z)), ((w * w) * (w * y)), ((x * x) * (x * z)), ((x * x) * (w * y)), ((y * y) * (x * z)), ((y * y) * (w * y)), ((z * z) * (x * z)), ((z * z) * (w * y)), ((x * y) * (y * z)), ((x * y) * (w * x)), ((w * z) * (y * z)), ((w * z) * (w * x)));
    lemma_spread_2_s(w * y, (2 * ((x * y) + (w * z))) * (2 * ((y * z) + (w * x))), ((w * w) - (x * x) + (y * y) - (z * z)) * (2 * ((x * z) - (w * y))), ((w * w) * (x * z)), ((w * w) * (w * y)), ((x * x) * (x * z)), ((x * x) * (w * y)), ((y * y) * (x * z)), ((y * y) * (w * y)), ((z * z) * (x * z)), ((z * z) * (w * y)), ((x * y) * (y * z)), ((x * y) * (w * x)), ((w * z) * (y * z)), ((w * z) * (w * x)));
    lemma_expand_norm(w * w, x * x, y * y, z * z);
    lemma_outer_norm(w * w, x * x, y * y, z * z, ((w * w + x * x + y * y + z * z) * (w * w + x * x + y * y + z * z)));
    lemma_spread_norm(w * w, ((w * w + x * x + y * y + z * z) * (w * w + x * x + y * y + z * z)), ((w * w) * (w * w)), ((w * w) * (x * x)), ((w * w) * (y * y)), ((w * w) * (z * z)), ((x * x) * (x * x)), ((x * x) * (y * y)), ((x * x) * (z * z)), ((y * y) * (y * y)), ((y * y) * (z * z)), ((z * z) * (z * z)));
    lemma_spread_norm(x * x, ((w * w + x * x + y * y + z * z) * (w * w + x * x + y * y + z * z)), ((w * w) * (w * w)), ((w * w) * (x * x)), ((w * w) * (y * y)), ((w * w) * (z * z)), ((x * x) * (x * x)), ((x * x) * (y * y)), ((x * x) * (z * z)), ((y * y) * (y * y)), ((y * y) * (z * z)), ((z * z) * (z * z)));
    lemma_spread_norm(y * y, ((w * w + x * x + y * y + z * z) * (w * w + x * x + y * y + z * z)), ((w * w) * (w * w)), ((w * w) * (x * x)), ((w * w) * (y * y)), ((w * w) * (z * z)), ((x * x) * (x * x)), ((x * x) * (y * y)), ((x * x) * (z * z)), ((y * y) * (y * y)), ((y * y) * (z * z)), ((z * z) * (z * z)));
    lemma_spread_norm(z * z, ((w * w + x * x + y * y + z * z) * (w * w + x * x + y * y + z * z)), ((w * w) * (w * w)), ((w * w) * (x * x)), ((w * w) * (y * y)), ((w * w) * (z * z)), ((x * x) * (x * x)), ((x * x) * (y * y)), ((x * x) * (z * z)), ((y * y) * (y * y)), ((y * y) * (z * z)), ((z * z) * (z * z)));
    lemma_same_sextic_0(w, x, y, z);
    lemma_same_sextic_1(w, x, y, z);
    lemma_same_sextic_2(w, x, y, z);
    lemma_same_sextic_3(w, x, y, z);
    lemma_same_sextic_4(w, x, y, z);
    lemma_same_sextic_5(w, x, y, z);
    lemma_same_sextic_6(w, x, y, z);
    lemma_same_sextic_7(w, x, y, z);
    lemma_same_sextic_8(w, x, y, z);
    lemma_same_sextic_9(w, x, y, z);
    lemma_same_sextic_10(w, x, y, z);
    lemma_same_sextic_11(w, x, y, z);
    lemma_same_sextic_12(w, x, y, z);
    lemma_same_sextic_13(w, x, y, z);
    lemma_same_sextic_14(w, x, y, z);
    lemma_same_sextic_15(w, x, y, z);
    lemma_same_sextic_16(w, x, y, z);
    lemma_same_sextic_17(w, x, y, z);
    lemma_same_sextic_18(w, x, y, z);
    lemma_same_sextic_19(w, x, y, z);
    lemma_same_sextic_20(w, x, y, z);
    lemma_same_sextic_21(w, x, y, z);
    lemma_same_sextic_22(w, x, y, z);
    lemma_same_sextic_23(w, x, y, z);
    lemma_same_sextic_24(w, x, y, z);
    lemma_same_sextic_25(w, x, y, z);
    lemma_same_sextic_26(w, x, y, z);
    lemma_same_sextic_27(w, x, y, z);
    lemma_same_sextic_28(w, x, y, z);
    lemma_same_sextic_29(w, x, y, z);
    lemma_same_sextic_30(w, x, y, z);
    lemma_same_sextic_31(w, x, y, z);
    lemma_same_sextic_32(w, x, y, z);
    lemma_same_sextic_33(w, x, y, z);
    lemma_same_sextic_34(w, x, y, z);
    lemma_same_sextic_35(w, x, y, z);
    lemma_same_sextic_36(w, x, y, z);
    lemma_same_sextic_37(w, x, y, z);
    lemma_same_sextic_38(w, x, y, z);
    lemma_same_sextic_39(w, x, y, z);
    lemma_same_sextic_40(w, x, y, z);
    lemma_same_sextic_41(w, x, y, z);
    lemma_same_sextic_42(w, x, y, z);
    lemma_same_sextic_43(w, x, y, z);
    lemma_same_sextic_44(w, x, y, z);
    lemma_same_sextic_45(w, x, y, z);
    lemma_same_sextic_46(w, x, y, z);
    lemma_same_sextic_47(w, x, y, z);
    lemma_same_sextic_48(w, x, y, z);
    lemma_same_sextic_49(w, x, y, z);
    lemma_same_sextic_50(w, x, y, z);
    lemma_same_sextic_51(w, x, y, z);
    lemma_same_sextic_52(w, x, y, z);
    lemma_same_sextic_53(w, x, y, z);
    lemma_same_sextic_54(w, x, y, z);
    lemma_same_sextic_55(w, x, y, z);
    lemma_same_sextic_56(w, x, y, z);
    lemma_same_sextic_57(w, x, y, z);
    lemma_same_sextic_58(w, x, y, z);
    lemma_same_sextic_59(w, x, y, z);
    lemma_same_sextic_60(w, x, y, z);
    lemma_same_sextic_61(w, x, y, z);
    lemma_same_sextic_62(w, x, y, z);
    lemma_same_sextic_63(w, x, y, z);
    lemma_same_sextic_64(w, x, y, z);
    lemma_same_sextic_65(w, x, y, z);
    lemma_same_sextic_66(w, x, y, z);
    lemma_same_sextic_67(w, x, y, z);
    lemma_same_sextic_68(w, x, y, z);
    lemma_same_sextic_69(w, x, y, z);
    lemma_same_sextic_70(w, x, y, z);
    lemma_same_sextic_71(w, x, y, z);
}

proof fn lemma_square_0(uww: int, uxx: int, uyy: int, uzz: int) by (nonlinear_arith)
    ensures
        (uww - uxx - uyy - uzz) * (uww - uxx - uyy - uzz) == 0 + 1 * (uww * uww) - 2 * (uww * uxx) - 2 * (uww * uyy) - 2 * (uww * uzz) + 1 * (uxx * uxx) + 2 * (uxx * uyy) + 2 * (uxx * uzz) + 1 * (uyy * uyy) + 2 * (uyy * uzz) + 1 * (uzz * uzz),
{
}

proof fn lemma_square_1(uwx: int, uxw: int, uyz: int, uzy: int) by (nonlinear_arith)
    ensures
        (uwx + uxw + uyz - uzy) * (uwx + uxw + uyz - uzy) == 0 + 1 * (uwx * uwx) + 2 * (uwx * uxw) + 2 * (uwx * uyz) - 2 * (uwx * uzy) + 1 * (uxw * uxw) + 2 * (uxw * uyz) - 2 * (uxw * uzy) + 1 * (uyz * uyz) - 2 * (uyz * uzy) + 1 * (uzy * uzy),
{
}

proof fn lemma_square_2(uwy: int, uxz: int, uyw: int, uzx: int) by (nonlinear_arith)
    ensures
        (uwy - uxz + uyw + uzx) * (uwy - uxz + uyw + uzx) == 0 + 1 * (uwy * uwy) - 2 * (uwy * uxz) + 2 * (uwy * uyw) + 2 * (uwy * uzx) + 1 * (uxz * uxz) - 2 * (uxz * uyw) - 2 * (uxz * uzx) + 1 * (uyw * uyw) + 2 * (uyw * uzx) + 1 * (uzx * uzx),
{
}

proof fn lemma_square_3(uwz: int, uxy: int, uyx: int, uzw: int) by (nonlinear_arith)
    ensures
        (uwz + uxy - uyx + uzw) * (uwz + uxy - uyx + uzw) == 0 + 1 * (uwz * uwz) + 2 * (uwz * uxy) - 2 * (uwz * uyx) + 2 * (uwz * uzw) + 1 * (uxy * uxy) - 2 * (uxy * uyx) + 2 * (uxy * uzw) + 1 * (uyx * uyx) - 2 * (uyx * uzw) + 1 * (uzw * uzw),
{
}

proof fn lemma_norms_product(aw: int, ax: int, ay: int, az: int, bw: int, bx: int, by: int, bz: int) by (nonlinear_arith)
    ensures
        (aw + ax + ay + az) * (bw + bx + by + bz) == aw * bw + aw * bx + aw * by + aw * bz + ax * bw + ax * bx + ax * by + ax * bz + ay * bw + ay * bx + ay * by + ay * bz + az * bw + az * bx + az * by + az * bz,
{
}

proof fn lemma_regroup(a: int, b: int) by (nonlinear_arith)
    ensures
        (a * a) * (b * b) == (a * b) * (a * b),
{
}

proof fn lemma_same_quartic_0(aw: int, ax: int, ay: int, az: int, bw: int, bx: int, by: int, bz: int) by (nonlinear_arith)
    ensures
        (aw * bx) * (ay * bz) == (aw * bz) * (ay * bx),
{
}

proof fn lemma_same_quartic_1(aw: int, ax: int, ay: int, az: int, bw: int, bx: int, by: int, bz: int) by (nonlinear_arith)
    ensures
        (ay * bw) * (az * bx) == (ay * bx) * (az * bw),
{
}

proof fn lemma_same_quartic_2(aw: int, ax: int, ay: int, az: int, bw: int, bx: int, by: int, bz: int) by (nonlinear_arith)
    ensures
        (ax * bw) * (ay * bz) == (ax * bz) * (ay * bw),
{
}

proof fn lemma_same_quartic_3(aw: int, ax: int, ay: int, az: int, bw: int, bx: int, by: int, bz: int) by (nonlinear_arith)
    ensures
        (aw * by) * (ax * bz) == (aw * bz) * (ax * by),
{
}

proof fn lemma_same_quartic_4(aw: int, ax: int, ay: int, az: int, bw: int, bx: int, by: int, bz: int) by (nonlinear_arith)
    ensures
        (aw * bw) * (ay * by) == (aw * by) * (ay * bw),
{
}

proof fn lemma_same_quartic_5(aw: int, ax: int, ay: int, az: int, bw: int, bx: int, by: int, bz: int) by (nonlinear_arith)
    ensures
        (ax * bx) * (az * bz) == (ax * bz) * (az * bx),
{
}

proof fn lemma_same_quartic_6(aw: int, ax: int, ay: int, az: int, bw: int, bx: int, by: int, bz: int) by (nonlinear_arith)
    ensures
        (aw * bw) * (az * bz) == (aw * bz) * (az * bw),
{
}

proof fn lemma_same_quartic_7(aw: int, ax: int, ay: int, az: int, bw: int, bx: int, by: int, bz: int) by (nonlinear_arith)
    ensures
        (ax * bx) * (ay * by) == (ax * by) * (ay * bx),
{
}

proof fn lemma_same_quartic_8(aw: int, ax: int, ay: int, az: int, bw: int, bx: int, by: int, bz: int) by (nonlinear_arith)
    ensures
        (aw * bx) * (az * by) == (aw * by) * (az * bx),
{
}

proof fn lemma_same_quartic_9(aw: int, ax: int, ay: int, az: int, bw: int, bx: int, by: int, bz: int) by (nonlinear_arith)
    ensures
        (aw * bw) * (ax * bx) == (aw * bx) * (ax * bw),
{
}

proof fn lemma_same_quartic_10(aw: int, ax: int, ay: int, az: int, bw: int, bx: int, by: int, bz: int) by (nonlinear_arith)
    ensures
        (ax * bw) * (az * by) == (ax * by) * (az * bw),
{
}

proof fn lemma_same_quartic_11(aw: int, ax: int, ay: int, az: int, bw: int, bx: int, by: int, bz: int) by (nonlinear_arith)
    ensures
        (ay * by) * (az * bz) == (ay * bz) * (az * by),
{
}

/// Euler's four-square identity: the squared norm of a product of
/// quaternions is the product of their squared norms.
pub proof fn lemma_four_squares(aw: int, ax: int, ay: int, az: int, bw: int, bx: int, by: int, bz: int)
    ensures
        ((aw * bw) - (ax * bx) - (ay * by) - (az * bz)) * ((aw * bw) - (ax * bx) - (ay * by) - (az * bz)) + ((aw * bx) + (ax * bw) + (ay * bz) - (az * by)) * ((aw * bx) + (ax * bw) + (ay * bz) - (az * by)) + ((aw * by) - (ax * bz) + (ay * bw) + (az * bx)) * ((aw * by) - (ax * bz) + (ay * bw) + (az * bx)) + ((aw * bz) + (ax * by) - (ay * bx) + (az * bw)) * ((aw * bz) + (ax * by) - (ay * bx) + (az * bw))
            == (aw * aw + ax * ax + ay * ay + az * az) * (bw * bw + bx * bx + by * by + bz * bz),
{
    lemma_square_0(aw * bw, ax * bx, ay * by, az * bz);
    lemma_square_1(aw * bx, ax * bw, ay * bz, az * by);
    lemma_square_2(aw * by, ax * bz, ay * bw, az * bx);
    lemma_square_3(aw * bz, ax * by, ay * bx, az * bw);
    lemma_norms_product(aw * aw, ax * ax, ay * ay, az * az, bw * bw, bx * bx, by * by, bz * bz);
    lemma_regroup(aw, bw);
    lemma_regroup(aw, bx);
    lemma_regroup(aw, by);
    lemma_regroup(aw, bz);
    lemma_regroup(ax, bw);
    lemma_regroup(ax, bx);
    lemma_regroup(ax, by);
    lemma_regroup(ax, bz);
    lemma_regroup(ay, bw);
    lemma_regroup(ay, bx);
    lemma_regroup(ay, by);
    lemma_regroup(ay, bz);
    lemma_regroup(az, bw);
    lemma_regroup(az, bx);
    lemma_regroup(az, by);
    lemma_regroup(az, bz);
    lemma_same_quartic_0(aw, ax, ay, az, bw, bx, by, bz);
    lemma_same_quartic_1(aw, ax, ay, az, bw, bx, by, bz);
    lemma_same_quartic_2(aw, ax, ay, az, bw, bx, by, bz);
    lemma_same_quartic_3(aw, ax, ay, az, bw, bx, by, bz);
    lemma_same_quartic_4(aw, ax, ay, az, bw, bx, by, bz);
    lemma_same_quartic_5(aw, ax, ay, az, bw, bx, by, bz);
    lemma_same_quartic_6(aw, ax, ay, az, bw, bx, by, bz);
    lemma_same_quartic_7(aw, ax, ay, az, bw, bx, by, bz);
    lemma_same_quartic_8(aw, ax, ay, az, bw, bx, by, bz);
    lemma_same_quartic_9(aw, ax, ay, az, bw, bx, by, bz);
    lemma_same_quartic_10(aw, ax, ay, az, bw, bx, by, bz);
    lemma_same_quartic_11(aw, ax, ay, az, bw, bx, by, bz);
}

} // verus!
