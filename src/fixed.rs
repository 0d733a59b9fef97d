//! Fixed-point progress and the integer arithmetic it needs.
use vstd::prelude::*;
use vstd::arithmetic::div_mod::lemma_fundamental_div_mod_converse;

verus! {

/// The fixed-point value that stands for a progress of one (a whole animation).
pub const PROGRESS_ONE: i64 = 10_000;

/// Floor division, `p / d` rounded towards negative infinity.
pub fn floor_div(p: i128, d: i128) -> (q: i128)
    requires
        d > 0,
    ensures
        q == p / d,
{
    if p >= 0 {
        p / d
    } else {
        let n: i128 = -(p + 1);
        let k: i128 = n / d;
        proof {
            let r = n % d;
            assert(n == k * d + r && 0 <= r < d) by {
                vstd::arithmetic::div_mod::lemma_fundamental_div_mod(n as int, d as int);
            }
            assert(p == (-k - 1) * d + (d - 1 - r)) by (nonlinear_arith)
                requires
                    n == k * d + r,
                    n == -(p + 1),
            ;
            lemma_fundamental_div_mod_converse(p as int, d as int, -k - 1, d - 1 - r);
        }
        -k - 1
    }
}

/// Euclidean remainder: the value in `[0, d)` that differs from `p` by a multiple of `d`.
pub fn euclid_mod(p: i128, d: i128) -> (r: i128)
    requires
        d > 0,
    ensures
        r == p % d,
        0 <= r < d,
{
    if p >= 0 {
        p % d
    } else {
        let n: i128 = -(p + 1);
        let k: i128 = n / d;
        let m: i128 = n % d;
        proof {
            assert(n == k * d + m && 0 <= m < d) by {
                vstd::arithmetic::div_mod::lemma_fundamental_div_mod(n as int, d as int);
            }
            assert(p == (-k - 1) * d + (d - 1 - m)) by (nonlinear_arith)
                requires
                    n == k * d + m,
                    n == -(p + 1),
            ;
            lemma_fundamental_div_mod_converse(p as int, d as int, -k - 1, d - 1 - m);
        }
        d - 1 - m
    }
}

} // verus!
