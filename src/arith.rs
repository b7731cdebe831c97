//! Integer facts used by the mapping and zoom proofs.

use vstd::prelude::*;
use vstd::arithmetic::div_mod::{
    lemma_div_is_ordered, lemma_div_multiples_vanish, lemma_fundamental_div_mod,
    lemma_fundamental_div_mod_converse, lemma_mod_pos_bound,
};
use vstd::arithmetic::mul::lemma_mul_inequality;

verus! {

/// Scaling `e` by `p / n` with `0 <= p <= n` stays within `[0, e]`.
pub proof fn lemma_scaled_within(p: int, e: int, n: int)
    requires
        0 <= p <= n,
        0 < n,
        0 <= e,
    ensures
        0 <= p * e / n <= e,
{
    lemma_mul_inequality(p, n, e);
    lemma_mul_inequality(0, p, e);
    lemma_div_is_ordered(p * e, n * e, n);
    lemma_div_is_ordered(0, p * e, n);
    assert(n * e == e * n) by (nonlinear_arith);
    lemma_div_multiples_vanish(e, n);
}

/// `e * k / n` is at least `k` when `e >= n`, and at most `e * k`.
pub proof fn lemma_ratio_bounds(e: int, k: int, n: int)
    requires
        0 < n <= e,
        0 <= k,
    ensures
        k <= e * k / n <= e * k,
{
    lemma_mul_inequality(n, e, k);
    lemma_div_is_ordered(n * k, e * k, n);
    assert(n * k == k * n) by (nonlinear_arith);
    lemma_div_multiples_vanish(k, n);
    assert(e * k >= 0) by (nonlinear_arith)
        requires
            e >= 0,
            k >= 0,
    ;
    assert(e * k / n <= e * k) by (nonlinear_arith)
        requires
            e * k >= 0,
            n >= 1,
    ;
}

/// Scaling down by `n` and back up rounds to the original step count when
/// each step is at least one unit: `ceil(floor(p * e / n) * n / e) == p`.
pub proof fn lemma_scale_round_trip(p: int, e: int, n: int)
    requires
        0 <= p,
        0 < n <= e,
    ensures
        ((p * e / n) * n + e - 1) / e == p,
{
    let q = p * e / n;
    let r = p * e % n;
    assert(p * e >= 0) by (nonlinear_arith)
        requires
            p >= 0,
            e >= 0,
    ;
    lemma_fundamental_div_mod(p * e, n);
    lemma_mod_pos_bound(p * e, n);
    assert(q * n == n * q) by (nonlinear_arith);
    lemma_fundamental_div_mod_converse(q * n + e - 1, e, p, e - 1 - r);
}

/// A product of two bounded non-negative factors is bounded by the product of
/// the bounds.
pub proof fn lemma_product_bound(a: int, b: int, ma: int, mb: int)
    requires
        0 <= a <= ma,
        0 <= b <= mb,
    ensures
        0 <= a * b <= ma * mb,
{
    assert(0 <= a * b <= ma * mb) by (nonlinear_arith)
        requires
            0 <= a <= ma,
            0 <= b <= mb,
    ;
}

/// The square of a value bounded by `m` in magnitude is at most `m * m`.
pub proof fn lemma_square_le(v: int, m: int)
    requires
        -m <= v <= m,
    ensures
        0 <= v * v <= m * m,
{
    assert(0 <= v * v <= m * m) by (nonlinear_arith)
        requires
            -m <= v <= m,
    ;
}

} // verus!
