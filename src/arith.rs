//! Bounds on products and quotients used by the fixed-point curves.
use vstd::prelude::*;

verus! {

/// A product of a value in `[0, a_max]` and one in `[lo, hi]`, with `lo <= 0 <= hi`,
/// lies between `a_max * lo` and `a_max * hi`.
pub proof fn lemma_mul_range(a: int, a_max: int, f: int, lo: int, hi: int)
    requires
        0 <= a <= a_max,
        lo <= f <= hi,
        lo <= 0 <= hi,
    ensures
        a_max * lo <= a * f <= a_max * hi,
{
    if f >= 0 {
        assert(a * f <= a_max * f) by (nonlinear_arith)
            requires
                0 <= a <= a_max,
                f >= 0,
        ;
        assert(a_max * f <= a_max * hi) by (nonlinear_arith)
            requires
                0 <= a_max,
                f <= hi,
        ;
        assert(0 <= a * f) by (nonlinear_arith)
            requires
                0 <= a,
                f >= 0,
        ;
        assert(a_max * lo <= 0) by (nonlinear_arith)
            requires
                0 <= a_max,
                lo <= 0,
        ;
    } else {
        assert(a_max * f <= a * f) by (nonlinear_arith)
            requires
                0 <= a <= a_max,
                f < 0,
        ;
        assert(a_max * lo <= a_max * f) by (nonlinear_arith)
            requires
                0 <= a_max,
                lo <= f,
        ;
        assert(a * f <= 0) by (nonlinear_arith)
            requires
                0 <= a,
                f < 0,
        ;
        assert(0 <= a_max * hi) by (nonlinear_arith)
            requires
                0 <= a_max,
                0 <= hi,
        ;
    }
}

/// A product of two values in `[0, a_max]` and `[0, b_max]` lies in `[0, a_max * b_max]`.
pub proof fn lemma_mul_bound(a: int, a_max: int, b: int, b_max: int)
    requires
        0 <= a <= a_max,
        0 <= b <= b_max,
    ensures
        0 <= a * b <= a_max * b_max,
{
    lemma_mul_range(a, a_max, b, 0, b_max);
    assert(a_max * 0 == 0);
}

/// A quotient of a value between `lo * d` and `hi * d` by `d` lies between `lo` and `hi`.
pub proof fn lemma_div_range(x: int, d: int, lo: int, hi: int)
    requires
        d > 0,
        lo * d <= x <= hi * d,
    ensures
        lo <= x / d <= hi,
{
    vstd::arithmetic::div_mod::lemma_div_is_ordered(lo * d, x, d);
    vstd::arithmetic::div_mod::lemma_div_is_ordered(x, hi * d, d);
    vstd::arithmetic::div_mod::lemma_div_multiples_vanish(lo, d);
    vstd::arithmetic::div_mod::lemma_div_multiples_vanish(hi, d);
    assert(lo * d == d * lo) by (nonlinear_arith);
    assert(hi * d == d * hi) by (nonlinear_arith);
}

} // verus!
