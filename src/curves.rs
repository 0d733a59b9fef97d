//! The easing curves over fixed-point progress.
//!
//! Each curve maps a progress `p` in `[0, PROGRESS_ONE]` to an eased progress in
//! the same units, rounding down. Polynomial, back and bounce curves are the usual
//! formulas with their constants as exact fractions. Circular curves use the
//! integer square root. Sine uses Bhaskara's rational approximation of
//! `sin(pi * t)` on a half turn, `16 t (1 - t) / (5 - 4 t (1 - t))`, and powers of
//! two are taken octave by octave, with the quadratic `1 - b u + (b - 1/2) u^2`
//! through `2^-u` at `u = 0, 1/2, 1` inside an octave. Both are exact at the ends
//! of the range, so every curve starts at zero and ends at one.
use vstd::prelude::*;
use crate::arith::{lemma_div_range, lemma_mul_bound, lemma_mul_range};
use crate::fixed::{euclid_mod, floor_div, PROGRESS_ONE};

verus! {

/// `b` raised to the power `n`.
pub open spec fn power(b: int, n: nat) -> int
    decreases n,
{
    if n == 0 {
        1
    } else {
        b * power(b, (n - 1) as nat)
    }
}

/// [`PROGRESS_ONE`] as a mathematical integer.
pub open spec fn one() -> int {
    10_000
}

/// `x^n`, for `x = p / one()`.
pub open spec fn poly_in(p: int, n: nat) -> int {
    power(p, n) / power(one(), (n - 1) as nat)
}

/// `1 - (1 - x)^n`.
pub open spec fn poly_out(p: int, n: nat) -> int {
    one() - power(one() - p, n) / power(one(), (n - 1) as nat)
}

/// `(2x)^n / 2` below one half, `1 - (2 - 2x)^n / 2` from one half on.
pub open spec fn poly_in_out(p: int, n: nat) -> int {
    if 2 * p < one() {
        power(2 * p, n) / (2 * power(one(), (n - 1) as nat))
    } else {
        one() - power(2 * one() - 2 * p, n) / (2 * power(one(), (n - 1) as nat))
    }
}

proof fn lemma_power_mono(a: int, b: int, n: nat)
    requires
        0 <= a <= b,
    ensures
        0 <= power(a, n) <= power(b, n),
    decreases n,
{
    if n > 0 {
        lemma_power_mono(a, b, (n - 1) as nat);
        lemma_mul_bound(a, b, power(a, (n - 1) as nat), power(b, (n - 1) as nat));
    }
}

proof fn lemma_power_limit(n: nat)
    requires
        n <= 5,
    ensures
        0 < power(2 * one(), n) <= 3_200_000_000_000_000_000_000,
        0 < power(one(), n) <= 100_000_000_000_000_000_000,
        n <= 4 ==> power(one(), n) <= 10_000_000_000_000_000,
{
    assert(power(2 * one(), 0) == 1);
    assert(power(2 * one(), 1) == 20_000);
    assert(power(2 * one(), 2) == 400_000_000);
    assert(power(2 * one(), 3) == 8_000_000_000_000);
    assert(power(2 * one(), 4) == 160_000_000_000_000_000);
    assert(power(2 * one(), 5) == 3_200_000_000_000_000_000_000);
    assert(power(one(), 0) == 1);
    assert(power(one(), 1) == 10_000);
    assert(power(one(), 2) == 100_000_000);
    assert(power(one(), 3) == 1_000_000_000_000);
    assert(power(one(), 4) == 10_000_000_000_000_000);
    assert(power(one(), 5) == 100_000_000_000_000_000_000);
}

fn power_of(b: i128, n: u32) -> (r: i128)
    requires
        0 <= b <= 2 * one(),
        n <= 5,
    ensures
        r == power(b as int, n as nat),
        0 <= r <= power(2 * one(), n as nat),
{
    let mut r: i128 = 1;
    let mut i: u32 = 0;
    while i < n
        invariant
            0 <= b <= 2 * one(),
            i <= n <= 5,
            r == power(b as int, i as nat),
            0 <= r <= power(2 * one(), i as nat),
        decreases n - i,
    {
        proof {
            lemma_power_limit(i as nat);
            lemma_power_limit((i + 1) as nat);
            lemma_mul_bound(b as int, 2 * one(), r as int, power(2 * one(), i as nat));
        }
        r = b * r;
        i = i + 1;
    }
    r
}

/// `power(one(), n - 1)`, and the facts the polynomial curves need of it.
fn scale_power(n: u32) -> (d: i128)
    requires
        1 <= n <= 5,
    ensures
        d == power(one(), (n - 1) as nat),
        0 < d <= 10_000_000_000_000_000,
        power(one(), n as nat) == one() * d,
{
    proof {
        lemma_power_limit((n - 1) as nat);
        lemma_power_mono(one(), 2 * one(), (n - 1) as nat);
    }
    power_of(PROGRESS_ONE as i128, n - 1)
}

pub(crate) fn ease_poly_in(p: i128, n: u32) -> (r: i128)
    requires
        0 <= p <= one(),
        1 <= n <= 5,
    ensures
        r == poly_in(p as int, n as nat),
        0 <= r <= one(),
{
    let d = scale_power(n);
    let num = power_of(p, n);
    proof {
        lemma_power_mono(p as int, one(), n as nat);
        lemma_div_range(num as int, d as int, 0, one());
    }
    num / d
}

pub(crate) fn ease_poly_out(p: i128, n: u32) -> (r: i128)
    requires
        0 <= p <= one(),
        1 <= n <= 5,
    ensures
        r == poly_out(p as int, n as nat),
        0 <= r <= one(),
{
    let d = scale_power(n);
    let num = power_of(PROGRESS_ONE as i128 - p, n);
    proof {
        lemma_power_mono(one() - p, one(), n as nat);
        lemma_div_range(num as int, d as int, 0, one());
    }
    PROGRESS_ONE as i128 - num / d
}

pub(crate) fn ease_poly_in_out(p: i128, n: u32) -> (r: i128)
    requires
        0 <= p <= one(),
        1 <= n <= 5,
    ensures
        r == poly_in_out(p as int, n as nat),
        0 <= r <= one(),
{
    let d = scale_power(n);
    if 2 * p < PROGRESS_ONE as i128 {
        let num = power_of(2 * p, n);
        proof {
            lemma_power_mono(2 * p, one(), n as nat);
            lemma_div_range(num as int, 2 * d, 0, one());
        }
        num / (2 * d)
    } else {
        let num = power_of(2 * PROGRESS_ONE as i128 - 2 * p, n);
        proof {
            lemma_power_mono(2 * one() - 2 * p, one(), n as nat);
            lemma_div_range(num as int, 2 * d, 0, one());
        }
        PROGRESS_ONE as i128 - num / (2 * d)
    }
}

/// Bhaskara's approximation of `sin(pi * v / m)` for `0 <= v <= m`, in progress units.
pub open spec fn half_turn_sine(v: int, m: int) -> int {
    ((v * (m - v)) * (16 * one())) / (5 * (m * m) - 4 * (v * (m - v)))
}

/// An approximation of `sin(pi * n / m)` for any `n`: [`half_turn_sine`] on the
/// first half of each turn, negated on the second.
pub open spec fn sine(n: int, m: int) -> int {
    let k = n % (2 * m);
    if k <= m {
        half_turn_sine(k, m)
    } else {
        -half_turn_sine(k - m, m)
    }
}

/// An approximation of `1 - cos(pi x / 2)`, through [`half_turn_sine`].
pub open spec fn sine_in(p: int) -> int {
    one() - half_turn_sine(p + one(), 2 * one())
}

/// An approximation of `sin(pi x / 2)`, through [`half_turn_sine`].
pub open spec fn sine_out(p: int) -> int {
    half_turn_sine(p, 2 * one())
}

/// An approximation of `(1 - cos(pi x)) / 2`, through [`half_turn_sine`].
pub open spec fn sine_in_out(p: int) -> int {
    if 2 * p <= one() {
        (one() - half_turn_sine(2 * p + one(), 2 * one())) / 2
    } else {
        (one() + half_turn_sine(2 * p - one(), 2 * one())) / 2
    }
}

fn half_turn_sine_of(v: i128, m: i128) -> (r: i128)
    requires
        0 <= v <= m,
        0 < m <= 18 * one(),
    ensures
        r == half_turn_sine(v as int, m as int),
        0 <= r <= one(),
{
    proof {
        lemma_mul_bound(v as int, m as int, (m - v) as int, m as int);
        assert(4 * (v * (m - v)) <= m * m) by (nonlinear_arith)
            requires
                0 <= v <= m,
        ;
        assert(0 < m * m <= 180_000 * 180_000) by (nonlinear_arith)
            requires
                0 < m <= 180_000,
        ;
    }
    let w: i128 = v * (m - v);
    let den: i128 = 5 * (m * m) - 4 * w;
    let num: i128 = w * 160_000;
    proof {
        lemma_div_range(num as int, den as int, 0, one());
    }
    num / den
}

fn sine_of(n: i128, m: i128) -> (r: i128)
    requires
        0 < m <= 18 * one(),
    ensures
        r == sine(n as int, m as int),
        -one() <= r <= one(),
{
    let k = euclid_mod(n, 2 * m);
    if k <= m {
        half_turn_sine_of(k, m)
    } else {
        -half_turn_sine_of(k - m, m)
    }
}

pub(crate) fn ease_sine_in(p: i128) -> (r: i128)
    requires
        0 <= p <= one(),
    ensures
        r == sine_in(p as int),
        0 <= r <= one(),
{
    PROGRESS_ONE as i128 - half_turn_sine_of(p + PROGRESS_ONE as i128, 2 * PROGRESS_ONE as i128)
}

pub(crate) fn ease_sine_out(p: i128) -> (r: i128)
    requires
        0 <= p <= one(),
    ensures
        r == sine_out(p as int),
        0 <= r <= one(),
{
    half_turn_sine_of(p, 2 * PROGRESS_ONE as i128)
}

pub(crate) fn ease_sine_in_out(p: i128) -> (r: i128)
    requires
        0 <= p <= one(),
    ensures
        r == sine_in_out(p as int),
        0 <= r <= one(),
{
    if 2 * p <= PROGRESS_ONE as i128 {
        (PROGRESS_ONE as i128 - half_turn_sine_of(2 * p + PROGRESS_ONE as i128, 2 * PROGRESS_ONE as i128)) / 2
    } else {
        (PROGRESS_ONE as i128 + half_turn_sine_of(2 * p - PROGRESS_ONE as i128, 2 * PROGRESS_ONE as i128)) / 2
    }
}

/// `r` is the integer square root of `n`.
pub open spec fn is_root(n: int, r: int) -> bool {
    0 <= r && r * r <= n < (r + 1) * (r + 1)
}

/// The integer square root of `n >= 0`.
pub open spec fn isqrt(n: int) -> int {
    choose|r: int| is_root(n, r)
}

proof fn lemma_root_unique(n: int, r: int, s: int)
    requires
        is_root(n, r),
        is_root(n, s),
    ensures
        r == s,
{
    if r < s {
        assert((r + 1) * (r + 1) <= s * s) by (nonlinear_arith)
            requires
                0 <= r < s,
        ;
    } else if s < r {
        assert((s + 1) * (s + 1) <= r * r) by (nonlinear_arith)
            requires
                0 <= s < r,
        ;
    }
}

fn isqrt_of(n: i128) -> (r: i128)
    requires
        0 <= n <= one() * one(),
    ensures
        r == isqrt(n as int),
        0 <= r <= one(),
{
    let mut lo: i128 = 0;
    let mut hi: i128 = PROGRESS_ONE as i128 + 1;
    assert(hi == 10_001);
    assert(hi * hi == 100_020_001);
    while hi - lo > 1
        invariant
            0 <= n <= one() * one(),
            0 <= lo < hi <= one() + 1,
            lo * lo <= n < hi * hi,
        decreases hi - lo,
    {
        let mid: i128 = lo + (hi - lo) / 2;
        assert(mid * mid <= 10_001 * 10_001) by (nonlinear_arith)
            requires
                0 <= mid <= 10_001,
        ;
        if mid * mid <= n {
            lo = mid;
        } else {
            hi = mid;
        }
    }
    proof {
        assert(is_root(n as int, lo as int));
        let s = isqrt(n as int);
        assert(is_root(n as int, s));
        lemma_root_unique(n as int, lo as int, s);
    }
    lo
}

/// `1 - sqrt(1 - x^2)`.
pub open spec fn circ_in(p: int) -> int {
    one() - isqrt(one() * one() - p * p)
}

/// `sqrt(1 - (x - 1)^2)`.
pub open spec fn circ_out(p: int) -> int {
    isqrt(one() * one() - (one() - p) * (one() - p))
}

/// `(1 - sqrt(1 - (2x)^2)) / 2` below one half, `(sqrt(1 - (2 - 2x)^2) + 1) / 2` from one half on.
pub open spec fn circ_in_out(p: int) -> int {
    if 2 * p < one() {
        (one() - isqrt(one() * one() - (2 * p) * (2 * p))) / 2
    } else {
        (isqrt(one() * one() - (2 * one() - 2 * p) * (2 * one() - 2 * p)) + one()) / 2
    }
}

proof fn lemma_square_within(a: int)
    requires
        0 <= a <= one(),
    ensures
        0 <= one() * one() - a * a <= one() * one(),
{
    lemma_mul_bound(a, one(), a, one());
}

pub(crate) fn ease_circ_in(p: i128) -> (r: i128)
    requires
        0 <= p <= one(),
    ensures
        r == circ_in(p as int),
        0 <= r <= one(),
{
    proof { lemma_square_within(p as int); }
    let one: i128 = PROGRESS_ONE as i128;
    one - isqrt_of(one * one - p * p)
}

pub(crate) fn ease_circ_out(p: i128) -> (r: i128)
    requires
        0 <= p <= one(),
    ensures
        r == circ_out(p as int),
        0 <= r <= one(),
{
    let one: i128 = PROGRESS_ONE as i128;
    proof { lemma_square_within(one - p); }
    isqrt_of(one * one - (one - p) * (one - p))
}

pub(crate) fn ease_circ_in_out(p: i128) -> (r: i128)
    requires
        0 <= p <= one(),
    ensures
        r == circ_in_out(p as int),
        0 <= r <= one(),
{
    let one: i128 = PROGRESS_ONE as i128;
    if 2 * p < one {
        proof { lemma_square_within(2 * p); }
        (one - isqrt_of(one * one - (2 * p) * (2 * p))) / 2
    } else {
        proof { lemma_square_within(2 * one - 2 * p); }
        (isqrt_of(one * one - (2 * one - 2 * p) * (2 * one - 2 * p)) + one) / 2
    }
}

/// `2^-u` on one octave, `u = r / one()` in `[0, 1)`: the quadratic through the
/// exact values at `u = 0, 1/2, 1`.
pub open spec fn octave(r: int) -> int {
    (100_000 * one() * one() - r * (67_157 * one() - 17_157 * r)) / (100_000 * one())
}

/// `v` halved `q` times, rounding down each time.
pub open spec fn halved(v: int, q: nat) -> int
    decreases q,
{
    if q == 0 {
        v
    } else {
        halved(v, (q - 1) as nat) / 2
    }
}

/// An approximation of `2^-x` for `x = m / one() >= 0`: whole octaves halve
/// exactly, the rest is the quadratic [`octave`].
pub open spec fn exp2_neg(m: int) -> int {
    halved(octave(m % one()), (m / one()) as nat)
}

fn octave_of(r: i128) -> (v: i128)
    requires
        0 <= r < one(),
    ensures
        v == octave(r as int),
        0 <= v <= one(),
{
    proof {
        lemma_mul_bound(r as int, 10_000, 671_570_000 - 17_157 * r, 671_570_000);
    }
    let num: i128 = 10_000_000_000_000 - r * (671_570_000 - 17_157 * r);
    proof {
        lemma_div_range(num as int, 1_000_000_000, 0, one());
    }
    num / 1_000_000_000
}

fn halved_of(v: i128, q: i128) -> (r: i128)
    requires
        0 <= v,
        0 <= q,
    ensures
        r == halved(v as int, q as nat),
        0 <= r <= v,
{
    let mut r: i128 = v;
    let mut i: i128 = 0;
    while i < q
        invariant
            0 <= i <= q,
            0 <= r <= v,
            r == halved(v as int, i as nat),
        decreases q - i,
    {
        r = r / 2;
        i = i + 1;
    }
    r
}

fn exp2_neg_of(m: i128) -> (r: i128)
    requires
        0 <= m <= 20 * one(),
    ensures
        r == exp2_neg(m as int),
        0 <= r <= one(),
{
    let base = octave_of(m % (PROGRESS_ONE as i128));
    halved_of(base, m / (PROGRESS_ONE as i128))
}

/// An approximation of `2^(10x - 10)`, through [`exp2_neg`], and zero at zero.
pub open spec fn expo_in(p: int) -> int {
    if p == 0 {
        0
    } else {
        exp2_neg(10 * one() - 10 * p)
    }
}

/// An approximation of `1 - 2^(-10x)`, through [`exp2_neg`], and one at one.
pub open spec fn expo_out(p: int) -> int {
    if p == one() {
        one()
    } else {
        one() - exp2_neg(10 * p)
    }
}

/// An approximation, through [`exp2_neg`], of `2^(20x - 10) / 2` below one half, `(2 - 2^(10 - 20x)) / 2` from one half on;
/// zero at zero and one at one.
pub open spec fn expo_in_out(p: int) -> int {
    if p == 0 {
        0
    } else if p == one() {
        one()
    } else if 2 * p < one() {
        exp2_neg(10 * one() - 20 * p) / 2
    } else {
        (2 * one() - exp2_neg(20 * p - 10 * one())) / 2
    }
}

pub(crate) fn ease_expo_in(p: i128) -> (r: i128)
    requires
        0 <= p <= one(),
    ensures
        r == expo_in(p as int),
        0 <= r <= one(),
{
    if p == 0 {
        0
    } else {
        exp2_neg_of(10 * PROGRESS_ONE as i128 - 10 * p)
    }
}

pub(crate) fn ease_expo_out(p: i128) -> (r: i128)
    requires
        0 <= p <= one(),
    ensures
        r == expo_out(p as int),
        0 <= r <= one(),
{
    if p == PROGRESS_ONE as i128 {
        PROGRESS_ONE as i128
    } else {
        PROGRESS_ONE as i128 - exp2_neg_of(10 * p)
    }
}

pub(crate) fn ease_expo_in_out(p: i128) -> (r: i128)
    requires
        0 <= p <= one(),
    ensures
        r == expo_in_out(p as int),
        0 <= r <= one(),
{
    let one: i128 = PROGRESS_ONE as i128;
    if p == 0 {
        0
    } else if p == one {
        one
    } else if 2 * p < one {
        exp2_neg_of(10 * one - 20 * p) / 2
    } else {
        (2 * one - exp2_neg_of(20 * p - 10 * one)) / 2
    }
}

/// An approximation, through [`exp2_neg`] and [`sine`], of
/// `-2^(10x - 10) sin((10x - 10.75) 2pi/3)`; zero at zero and one at one.
pub open spec fn elastic_in(p: int) -> int {
    if p == 0 {
        0
    } else if p == one() {
        one()
    } else {
        (-(exp2_neg(10 * one() - 10 * p) * sine(40 * p - 43 * one(), 6 * one()))) / one()
    }
}

/// An approximation, through [`exp2_neg`] and [`sine`], of
/// `2^(-10x) sin((10x - 0.75) 2pi/3) + 1`; zero at zero and one at one.
pub open spec fn elastic_out(p: int) -> int {
    if p == 0 {
        0
    } else if p == one() {
        one()
    } else {
        (exp2_neg(10 * p) * sine(40 * p - 3 * one(), 6 * one())) / one() + one()
    }
}

/// An approximation, through [`exp2_neg`] and [`sine`], of
/// `-2^(20x - 10) sin((20x - 11.125) 2pi/4.5) / 2` below one half,
/// `2^(10 - 20x) sin((20x - 11.125) 2pi/4.5) / 2 + 1` from one half on;
/// zero at zero and one at one.
pub open spec fn elastic_in_out(p: int) -> int {
    if p == 0 {
        0
    } else if p == one() {
        one()
    } else if 2 * p < one() {
        (-(exp2_neg(10 * one() - 20 * p) * sine(160 * p - 89 * one(), 18 * one()))) / (2 * one())
    } else {
        (exp2_neg(20 * p - 10 * one()) * sine(160 * p - 89 * one(), 18 * one())) / (2 * one()) + one()
    }
}

/// The product of a decay in `[0, one()]` and a sine in `[-one(), one()]`,
/// divided by `d`.
fn damped(e: i128, s: i128, negate: bool, d: i128) -> (r: i128)
    requires
        0 <= e <= one(),
        -one() <= s <= one(),
        d == one() || d == 2 * one(),
    ensures
        r == (if negate { -(e * s) } else { e * s }) / (d as int),
        -one() <= r <= one(),
{
    proof {
        lemma_mul_range(e as int, one(), s as int, -one(), one());
    }
    let x: i128 = if negate { -(e * s) } else { e * s };
    proof {
        lemma_div_range(x as int, d as int, -one(), one());
    }
    floor_div(x, d)
}

pub(crate) fn ease_elastic_in(p: i128) -> (r: i128)
    requires
        0 <= p <= one(),
    ensures
        r == elastic_in(p as int),
        -one() <= r <= one(),
{
    let one: i128 = PROGRESS_ONE as i128;
    if p == 0 {
        0
    } else if p == one {
        one
    } else {
        let e = exp2_neg_of(10 * one - 10 * p);
        let s = sine_of(40 * p - 43 * one, 6 * one);
        damped(e, s, true, one)
    }
}

pub(crate) fn ease_elastic_out(p: i128) -> (r: i128)
    requires
        0 <= p <= one(),
    ensures
        r == elastic_out(p as int),
        0 <= r <= 2 * one(),
{
    let one: i128 = PROGRESS_ONE as i128;
    if p == 0 {
        0
    } else if p == one {
        one
    } else {
        let e = exp2_neg_of(10 * p);
        let s = sine_of(40 * p - 3 * one, 6 * one);
        damped(e, s, false, one) + one
    }
}

pub(crate) fn ease_elastic_in_out(p: i128) -> (r: i128)
    requires
        0 <= p <= one(),
    ensures
        r == elastic_in_out(p as int),
        -one() <= r <= 2 * one(),
{
    let one: i128 = PROGRESS_ONE as i128;
    if p == 0 {
        0
    } else if p == one {
        one
    } else if 2 * p < one {
        let e = exp2_neg_of(10 * one - 20 * p);
        let s = sine_of(160 * p - 89 * one, 18 * one);
        damped(e, s, true, 2 * one)
    } else {
        let e = exp2_neg_of(20 * p - 10 * one);
        let s = sine_of(160 * p - 89 * one, 18 * one);
        damped(e, s, false, 2 * one) + one
    }
}

/// `x^2 (c3 x - c1)` with `c1 = 1.70158` and `c3 = c1 + 1`.
pub open spec fn back_in(p: int) -> int {
    (p * p * (270_158 * p - 170_158 * one())) / (100_000 * one() * one())
}

/// `1 + u^2 (c1 - c3 u)` with `u = 1 - x`.
pub open spec fn back_out(p: int) -> int {
    let u = one() - p;
    one() + (u * u * (170_158 * one() - 270_158 * u)) / (100_000 * one() * one())
}

/// With `c2 = c1 * 1.525`: `w^2 ((c2 + 1) w - c2) / 2` for `w = 2x` below one half,
/// `(u^2 (c2 - (c2 + 1) u) + 2) / 2` for `u = 2 - 2x` from one half on.
pub open spec fn back_in_out(p: int) -> int {
    if 2 * p < one() {
        let w = 2 * p;
        (w * w * (35_949_095 * w - 25_949_095 * one())) / (20_000_000 * one() * one())
    } else {
        let u = 2 * one() - 2 * p;
        (u * u * (25_949_095 * one() - 35_949_095 * u) + 20_000_000 * one() * one() * one())
            / (20_000_000 * one() * one())
    }
}

pub(crate) fn ease_back_in(p: i128) -> (r: i128)
    requires
        0 <= p <= one(),
    ensures
        r == back_in(p as int),
        -2 * one() <= r <= one(),
{
    proof {
        lemma_mul_bound(p as int, 10_000, p as int, 10_000);
        lemma_mul_range(p * p, 100_000_000, 270_158 * p - 1_701_580_000, -1_701_580_000, 1_000_000_000);
    }
    let x: i128 = p * p * (270_158 * p - 1_701_580_000);
    proof {
        lemma_div_range(x as int, 10_000_000_000_000, -2 * one(), one());
    }
    floor_div(x, 10_000_000_000_000)
}

pub(crate) fn ease_back_out(p: i128) -> (r: i128)
    requires
        0 <= p <= one(),
    ensures
        r == back_out(p as int),
        -2 * one() <= r <= 3 * one(),
{
    let u: i128 = PROGRESS_ONE as i128 - p;
    proof {
        lemma_mul_bound(u as int, 10_000, u as int, 10_000);
        lemma_mul_range(u * u, 100_000_000, 1_701_580_000 - 270_158 * u, -1_000_000_000, 1_701_580_000);
    }
    let x: i128 = u * u * (1_701_580_000 - 270_158 * u);
    proof {
        lemma_div_range(x as int, 10_000_000_000_000, -one(), 2 * one());
    }
    PROGRESS_ONE as i128 + floor_div(x, 10_000_000_000_000)
}

pub(crate) fn ease_back_in_out(p: i128) -> (r: i128)
    requires
        0 <= p <= one(),
    ensures
        r == back_in_out(p as int),
        -2 * one() <= r <= 3 * one(),
{
    if 2 * p < PROGRESS_ONE as i128 {
        let w: i128 = 2 * p;
        proof {
            lemma_mul_bound(w as int, 10_000, w as int, 10_000);
            lemma_mul_range(w * w, 100_000_000, 35_949_095 * w - 259_490_950_000, -259_490_950_000, 100_000_000_000);
        }
        let x: i128 = w * w * (35_949_095 * w - 259_490_950_000);
        proof {
            lemma_div_range(x as int, 2_000_000_000_000_000, -2 * one(), one());
        }
        floor_div(x, 2_000_000_000_000_000)
    } else {
        let u: i128 = 2 * PROGRESS_ONE as i128 - 2 * p;
        proof {
            lemma_mul_bound(u as int, 10_000, u as int, 10_000);
            lemma_mul_range(u * u, 100_000_000, 259_490_950_000 - 35_949_095 * u, -100_000_000_000, 259_490_950_000);
        }
        let x: i128 = u * u * (259_490_950_000 - 35_949_095 * u) + 20_000_000_000_000_000_000;
        proof {
            lemma_div_range(x as int, 2_000_000_000_000_000, 0, 3 * one());
        }
        x / 2_000_000_000_000_000
    }
}

/// The bounce-out curve: four parabolas with `n1 = 121/16` and `d1 = 11/4`,
/// meeting zero at each bounce and ending at one.
pub open spec fn bounce_out(p: int) -> int {
    if 11 * p < 4 * one() {
        (121 * (p * p)) / (16 * one())
    } else if 11 * p < 8 * one() {
        ((11 * p - 6 * one()) * (11 * p - 6 * one()) + 12 * one() * one()) / (16 * one())
    } else if 11 * p < 10 * one() {
        ((11 * p - 9 * one()) * (11 * p - 9 * one()) + 15 * one() * one()) / (16 * one())
    } else {
        ((22 * p - 21 * one()) * (22 * p - 21 * one()) + 63 * one() * one()) / (64 * one())
    }
}

/// `1 - bounce_out(1 - x)`.
pub open spec fn bounce_in(p: int) -> int {
    one() - bounce_out(one() - p)
}

/// `(1 - bounce_out(1 - 2x)) / 2` below one half, `(1 + bounce_out(2x - 1)) / 2` from one half on.
pub open spec fn bounce_in_out(p: int) -> int {
    if 2 * p < one() {
        (one() - bounce_out(one() - 2 * p)) / 2
    } else {
        (one() + bounce_out(2 * p - one())) / 2
    }
}

proof fn lemma_square_bound(x: int, b: int)
    requires
        -b <= x <= b,
    ensures
        0 <= x * x <= b * b,
{
    assert(0 <= x * x <= b * b) by (nonlinear_arith)
        requires
            -b <= x <= b,
    ;
}

pub(crate) fn ease_bounce_out(p: i128) -> (r: i128)
    requires
        0 <= p <= one(),
    ensures
        r == bounce_out(p as int),
        0 <= r <= one(),
{
    if 11 * p < 40_000 {
        proof {
            lemma_square_bound(11 * p, 40_000);
            assert(121 * (p * p) == (11 * p) * (11 * p)) by (nonlinear_arith);
            lemma_div_range(121 * (p * p), 160_000, 0, one());
        }
        (121 * (p * p)) / 160_000
    } else if 11 * p < 80_000 {
        let d: i128 = 11 * p - 60_000;
        proof {
            lemma_square_bound(d as int, 20_000);
            lemma_div_range(d * d + 1_200_000_000, 160_000, 0, one());
        }
        (d * d + 1_200_000_000) / 160_000
    } else if 11 * p < 100_000 {
        let d: i128 = 11 * p - 90_000;
        proof {
            lemma_square_bound(d as int, 10_000);
            lemma_div_range(d * d + 1_500_000_000, 160_000, 0, one());
        }
        (d * d + 1_500_000_000) / 160_000
    } else {
        let d: i128 = 22 * p - 210_000;
        proof {
            lemma_square_bound(d as int, 10_000);
            lemma_div_range(d * d + 6_300_000_000, 640_000, 0, one());
        }
        (d * d + 6_300_000_000) / 640_000
    }
}

pub(crate) fn ease_bounce_in(p: i128) -> (r: i128)
    requires
        0 <= p <= one(),
    ensures
        r == bounce_in(p as int),
        0 <= r <= one(),
{
    PROGRESS_ONE as i128 - ease_bounce_out(PROGRESS_ONE as i128 - p)
}

pub(crate) fn ease_bounce_in_out(p: i128) -> (r: i128)
    requires
        0 <= p <= one(),
    ensures
        r == bounce_in_out(p as int),
        0 <= r <= one(),
{
    let one: i128 = PROGRESS_ONE as i128;
    if 2 * p < one {
        (one - ease_bounce_out(one - 2 * p)) / 2
    } else {
        (one + ease_bounce_out(2 * p - one)) / 2
    }
}

pub proof fn lemma_power_positive(n: nat)
    ensures
        power(one(), n) > 0,
    decreases n,
{
    if n > 0 {
        lemma_power_positive((n - 1) as nat);
        lemma_mul_bound(1, one(), 1, power(one(), (n - 1) as nat));
        assert(one() * power(one(), (n - 1) as nat) > 0) by (nonlinear_arith)
            requires
                power(one(), (n - 1) as nat) > 0,
                one() > 0,
        ;
    }
}

pub proof fn lemma_power_distributes(a: int, b: int, n: nat)
    ensures
        power(a * b, n) == power(a, n) * power(b, n),
    decreases n,
{
    if n > 0 {
        lemma_power_distributes(a, b, (n - 1) as nat);
        let x = power(a, (n - 1) as nat);
        let y = power(b, (n - 1) as nat);
        assert((a * b) * (x * y) == (a * x) * (b * y)) by (nonlinear_arith);
    }
}

/// An exact square root is the integer square root.
pub proof fn lemma_isqrt_exact(n: int, r: int)
    requires
        0 <= r,
        n == r * r,
    ensures
        isqrt(n) == r,
{
    assert(n < (r + 1) * (r + 1)) by (nonlinear_arith)
        requires
            0 <= r,
            n == r * r,
    ;
    assert(is_root(n, r));
    lemma_root_unique(n, r, isqrt(n));
}

} // verus!
