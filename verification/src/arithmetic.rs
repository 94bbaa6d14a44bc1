//! Facts about sums and products of integers, as the proofs about lines
//! and rectangles need them.

use vstd::prelude::*;

verus! {

/// The product of two bounded numbers is bounded by the product of the
/// bounds.
pub proof fn lemma_product_bound(a: int, b: int, m: int, n: int)
    by (nonlinear_arith)
    requires
        -m <= a <= m,
        -n <= b <= n,
    ensures
        -(m * n) <= a * b <= m * n,
{
}

/// Scaling both sides of an inequality by a positive number keeps it.
pub proof fn lemma_scale_keeps_order(a: int, b: int, d: int)
    by (nonlinear_arith)
    requires
        a <= b,
        d > 0,
    ensures
        a * d <= b * d,
{
}

/// The smaller of two numbers.
pub open spec fn lesser(a: int, b: int) -> int {
    if a <= b {
        a
    } else {
        b
    }
}

/// The larger of two numbers.
pub open spec fn greater(a: int, b: int) -> int {
    if a >= b {
        a
    } else {
        b
    }
}

/// The sign of a product, from the signs of its factors.
pub proof fn lemma_product_sign(a: int, b: int)
    by (nonlinear_arith)
    ensures
        a > 0 && b > 0 ==> a * b > 0,
        a < 0 && b < 0 ==> a * b > 0,
        a > 0 && b < 0 ==> a * b < 0,
        a < 0 && b > 0 ==> a * b < 0,
        a == 0 || b == 0 ==> a * b == 0,
{
}

/// Scaling both sides of a strict inequality by a positive number keeps it.
pub proof fn lemma_scale_strictly(a: int, b: int, d: int)
    by (nonlinear_arith)
    requires
        a < b,
        d > 0,
    ensures
        a * d < b * d,
{
}

/// A positive factor can be dropped from both sides of a strict inequality.
pub proof fn lemma_cancel_positive(factor: int, a: int, b: int)
    by (nonlinear_arith)
    requires
        factor > 0,
        factor * a < factor * b,
    ensures
        a < b,
{
}

/// The order of two factors does not matter.
pub proof fn lemma_swap_factors(a: int, b: int)
    by (nonlinear_arith)
    ensures
        a * b == b * a,
{
}

/// A number has equal products with equal numbers.
pub proof fn lemma_times_equal(a: int, b: int, c: int)
    requires
        b == c,
    ensures
        a * b == a * c,
{
}

/// Three factors, grouped in two ways.
pub proof fn lemma_group_three(a: int, b: int, c: int)
    by (nonlinear_arith)
    ensures
        (a * b) * c == a * (b * c),
{
}

/// Four factors, grouped in two ways.
pub proof fn lemma_group_four(a: int, b: int, c: int, d: int)
    by (nonlinear_arith)
    ensures
        (a * b) * (c * d) == ((a * c) * d) * b,
{
}

/// A positive factor can be dropped from both sides of an equation.
pub proof fn lemma_cancel_equal(a: int, b: int, factor: int)
    by (nonlinear_arith)
    requires
        factor > 0,
        a * factor == b * factor,
    ensures
        a == b,
{
}

/// A positive factor can be dropped from both sides of an inequality.
pub proof fn lemma_cancel_order(a: int, b: int, factor: int)
    by (nonlinear_arith)
    requires
        factor > 0,
        a * factor <= b * factor,
    ensures
        a <= b,
{
}

/// A sum times a number is the sum of the products.
pub proof fn lemma_sum_times(a: int, b: int, c: int)
    by (nonlinear_arith)
    ensures
        (a + b) * c == a * c + b * c,
{
}

/// A number times a difference is the difference of the products.
pub proof fn lemma_times_difference(a: int, b: int, c: int)
    by (nonlinear_arith)
    ensures
        a * (b - c) == a * b - a * c,
{
}

/// The negative of a number times another is the negative of the product.
pub proof fn lemma_negated_times(a: int, c: int)
    by (nonlinear_arith)
    ensures
        (-a) * c == -(a * c),
{
}

/// The product of two numbers is the product of their negatives.
pub proof fn lemma_opposite_products(a: int, b: int, c: int, d: int)
    by (nonlinear_arith)
    requires
        c == -a,
        d == -b,
    ensures
        c * d == a * b,
{
}

/// Equal numbers have equal products with a third.
pub proof fn lemma_equal_times(a: int, b: int, c: int)
    requires
        a == b,
    ensures
        a * c == b * c,
{
}

/// A number times one is that number.
pub proof fn lemma_times_one(a: int, one: int)
    by (nonlinear_arith)
    requires
        one == 1,
    ensures
        a * one == a,
        one * a == a,
{
}

/// Five factors, grouped in two ways.
pub proof fn lemma_regroup(a: int, b: int, c: int, d: int, e: int)
    by (nonlinear_arith)
    ensures
        (a * (b * c)) * (e * d) == ((a * b) * d) * (c * e),
{
}

/// Part of the way gives part of the gain: for `0 <= part <= whole`, the
/// product `gain * part` lies between zero and `gain * whole`.
pub proof fn lemma_partial_gain(gain: int, part: int, whole: int)
    by (nonlinear_arith)
    requires
        0 <= part <= whole,
    ensures
        gain >= 0 ==> 0 <= gain * part <= gain * whole,
        gain <= 0 ==> gain * whole <= gain * part <= 0,
{
}

/// A fraction that is not below a fraction that is at least `lo` is itself
/// at least `lo`.
pub proof fn lemma_not_below(lo: int, an: int, ad: int, qn: int, qd: int)
    requires
        ad > 0,
        qd > 0,
        lo * ad <= an,
        an * qd <= qn * ad,
    ensures
        lo * qd <= qn,
{
    lemma_scale_keeps_order(lo * ad, an, qd);
    assert((lo * ad) * qd == ad * (lo * qd)) by (nonlinear_arith);
    assert(qn * ad == ad * qn) by (nonlinear_arith);
    if lo * qd > qn {
        lemma_scale_strictly(qn, lo * qd, ad);
        assert(qn * ad == ad * qn && (lo * qd) * ad == ad * (lo * qd)) by (nonlinear_arith);
        assert(false);
    }
}

/// A fraction that is not above a fraction that is at most `hi` is itself
/// at most `hi`.
pub proof fn lemma_not_above(hi: int, bn: int, bd: int, qn: int, qd: int)
    requires
        bd > 0,
        qd > 0,
        bn <= hi * bd,
        qn * bd <= bn * qd,
    ensures
        qn <= hi * qd,
{
    lemma_scale_keeps_order(bn, hi * bd, qd);
    assert((hi * bd) * qd == bd * (hi * qd)) by (nonlinear_arith);
    if qn > hi * qd {
        lemma_scale_strictly(hi * qd, qn, bd);
        assert(qn * bd == bd * qn && (hi * qd) * bd == bd * (hi * qd)) by (nonlinear_arith);
        assert(false);
    }
}

} // verus!
