//! The named easing curves.
use vstd::prelude::*;
use crate::curves::{
    half_turn_sine,
    exp2_neg, halved, octave, one, power, lemma_power_positive, lemma_power_distributes, lemma_isqrt_exact,
    back_in, back_out, back_in_out, bounce_in, bounce_out, bounce_in_out, circ_in, circ_out, circ_in_out, poly_in, poly_out, poly_in_out, elastic_in, elastic_out, elastic_in_out, expo_in, expo_out, expo_in_out, sine_in, sine_out, sine_in_out, ease_back_in, ease_back_in_out, ease_back_out, ease_bounce_in, ease_bounce_in_out, ease_bounce_out, ease_circ_in, ease_circ_in_out, ease_circ_out, ease_elastic_in, ease_elastic_in_out, ease_elastic_out, ease_expo_in, ease_expo_in_out, ease_expo_out, ease_poly_in, ease_poly_in_out, ease_poly_out, ease_sine_in, ease_sine_in_out, ease_sine_out,
};
use crate::fixed::PROGRESS_ONE;

verus! {

/// An easing curve: how progress through an animation maps to progress of its motion.
#[derive(Clone, Copy, Debug, PartialEq, Eq, Structural)]
pub enum Easing {
    Linear,
    BackIn,
    BackOut,
    BackInOut,
    BounceIn,
    BounceOut,
    BounceInOut,
    CircIn,
    CircOut,
    CircInOut,
    CubicIn,
    CubicOut,
    CubicInOut,
    ElasticIn,
    ElasticOut,
    ElasticInOut,
    ExpoIn,
    ExpoOut,
    ExpoInOut,
    QuadIn,
    QuadOut,
    QuadInOut,
    QuartIn,
    QuartOut,
    QuartInOut,
    QuintIn,
    QuintOut,
    QuintInOut,
    SineIn,
    SineOut,
    SineInOut,
}

/// The eased progress for progress `p`, both in units of [`PROGRESS_ONE`].
pub open spec fn ease_spec(e: Easing, p: int) -> int {
    match e {
        Easing::Linear => p,
        Easing::BackIn => back_in(p),
        Easing::BackOut => back_out(p),
        Easing::BackInOut => back_in_out(p),
        Easing::BounceIn => bounce_in(p),
        Easing::BounceOut => bounce_out(p),
        Easing::BounceInOut => bounce_in_out(p),
        Easing::CircIn => circ_in(p),
        Easing::CircOut => circ_out(p),
        Easing::CircInOut => circ_in_out(p),
        Easing::CubicIn => poly_in(p, 3),
        Easing::CubicOut => poly_out(p, 3),
        Easing::CubicInOut => poly_in_out(p, 3),
        Easing::ElasticIn => elastic_in(p),
        Easing::ElasticOut => elastic_out(p),
        Easing::ElasticInOut => elastic_in_out(p),
        Easing::ExpoIn => expo_in(p),
        Easing::ExpoOut => expo_out(p),
        Easing::ExpoInOut => expo_in_out(p),
        Easing::QuadIn => poly_in(p, 2),
        Easing::QuadOut => poly_out(p, 2),
        Easing::QuadInOut => poly_in_out(p, 2),
        Easing::QuartIn => poly_in(p, 4),
        Easing::QuartOut => poly_out(p, 4),
        Easing::QuartInOut => poly_in_out(p, 4),
        Easing::QuintIn => poly_in(p, 5),
        Easing::QuintOut => poly_out(p, 5),
        Easing::QuintInOut => poly_in_out(p, 5),
        Easing::SineIn => sine_in(p),
        Easing::SineOut => sine_out(p),
        Easing::SineInOut => sine_in_out(p),
    }
}

impl Easing {
    /// The eased progress for `progress` in `[0, PROGRESS_ONE]`. Back and elastic
    /// curves overshoot that range on purpose.
    pub fn ease(&self, progress: i64) -> (r: i64)
        requires
            0 <= progress <= PROGRESS_ONE,
        ensures
            r == ease_spec(*self, progress as int),
            -2 * PROGRESS_ONE <= r <= 3 * PROGRESS_ONE,
    {
        let p = progress as i128;
        let r: i128 = match self {
            Easing::Linear => p,
            Easing::BackIn => ease_back_in(p),
            Easing::BackOut => ease_back_out(p),
            Easing::BackInOut => ease_back_in_out(p),
            Easing::BounceIn => ease_bounce_in(p),
            Easing::BounceOut => ease_bounce_out(p),
            Easing::BounceInOut => ease_bounce_in_out(p),
            Easing::CircIn => ease_circ_in(p),
            Easing::CircOut => ease_circ_out(p),
            Easing::CircInOut => ease_circ_in_out(p),
            Easing::CubicIn => ease_poly_in(p, 3),
            Easing::CubicOut => ease_poly_out(p, 3),
            Easing::CubicInOut => ease_poly_in_out(p, 3),
            Easing::ElasticIn => ease_elastic_in(p),
            Easing::ElasticOut => ease_elastic_out(p),
            Easing::ElasticInOut => ease_elastic_in_out(p),
            Easing::ExpoIn => ease_expo_in(p),
            Easing::ExpoOut => ease_expo_out(p),
            Easing::ExpoInOut => ease_expo_in_out(p),
            Easing::QuadIn => ease_poly_in(p, 2),
            Easing::QuadOut => ease_poly_out(p, 2),
            Easing::QuadInOut => ease_poly_in_out(p, 2),
            Easing::QuartIn => ease_poly_in(p, 4),
            Easing::QuartOut => ease_poly_out(p, 4),
            Easing::QuartInOut => ease_poly_in_out(p, 4),
            Easing::QuintIn => ease_poly_in(p, 5),
            Easing::QuintOut => ease_poly_out(p, 5),
            Easing::QuintInOut => ease_poly_in_out(p, 5),
            Easing::SineIn => ease_sine_in(p),
            Easing::SineOut => ease_sine_out(p),
            Easing::SineInOut => ease_sine_in_out(p),
        };
        r as i64
    }
}

proof fn lemma_poly_ends(n: nat)
    requires
        1 <= n <= 5,
    ensures
        poly_in(0, n) == 0,
        poly_in(one(), n) == one(),
        poly_out(0, n) == 0,
        poly_out(one(), n) == one(),
        poly_in_out(0, n) == 0,
        poly_in_out(one(), n) == one(),
{
    let d = power(one(), (n - 1) as nat);
    lemma_power_positive((n - 1) as nat);
    assert(power(0, n) == 0);
    assert(power(one(), n) == one() * d);
    vstd::arithmetic::div_mod::lemma_div_multiples_vanish(one(), d);
    assert(d * one() == one() * d) by (nonlinear_arith);
    vstd::arithmetic::div_mod::lemma_div_multiples_vanish(one(), 2 * d);
    assert(power(2 * one(), n) == power(2, n) * power(one(), n)) by {
        lemma_power_distributes(2, one(), n);
    }
}

/// Every curve starts at zero and ends at one, exactly.
pub proof fn lemma_ease_ends(e: Easing)
    ensures
        ease_spec(e, 0) == 0,
        ease_spec(e, PROGRESS_ONE as int) == PROGRESS_ONE,
{
    lemma_poly_ends(2);
    lemma_poly_ends(3);
    lemma_poly_ends(4);
    lemma_poly_ends(5);
    lemma_isqrt_exact(0, 0);
    lemma_isqrt_exact(one() * one(), one());
    assert(exp2_neg(0) == one()) by {
        assert(halved(octave(0), 0) == octave(0));
    }
    assert(back_in(0) == 0);
    assert(back_in(one()) == one());
    assert(back_out(0) == 0);
    assert(back_out(one()) == one());
    assert(back_in_out(0) == 0);
    assert(back_in_out(one()) == one()) by {
        let u = 2 * one() - 2 * one();
        assert(u == 0);
        assert(u * u * (25_949_095 * one() - 35_949_095 * u) == 0);
        assert(20_000_000 * one() * one() * one() == 20_000_000_000_000_000_000);
        assert(20_000_000 * one() * one() == 2_000_000_000_000_000);
        assert(20_000_000_000_000_000_000int / 2_000_000_000_000_000int == 10_000);
    }
    assert(bounce_out(one()) == one()) by {
        assert((22 * one() - 21 * one()) * (22 * one() - 21 * one()) == 100_000_000);
        assert(63 * one() * one() == 6_300_000_000);
        assert(6_400_000_000int / 640_000int == 10_000);
    }
    assert(bounce_out(0) == 0);
    assert(bounce_in(0) == 0);
    assert(bounce_in(one()) == one());
    assert(bounce_in_out(0) == 0);
    assert(bounce_in_out(one()) == one());
    assert(circ_in(0) == 0);
    assert(circ_in(one()) == one());
    assert(circ_out(0) == 0);
    assert(circ_out(one()) == one());
    assert(circ_in_out(0) == 0);
    assert(circ_in_out(one()) == one());
    assert(elastic_in(0) == 0);
    assert(elastic_in(one()) == one());
    assert(elastic_out(0) == 0);
    assert(elastic_out(one()) == one());
    assert(elastic_in_out(0) == 0);
    assert(elastic_in_out(one()) == one());
    assert(expo_in(0) == 0);
    assert(expo_in(one()) == one());
    assert(expo_out(0) == 0);
    assert(expo_out(one()) == one());
    assert(expo_in_out(0) == 0);
    assert(expo_in_out(one()) == one());
    assert(sine_in(0) == 0) by {
        assert(one() * (2 * one() - one()) == 100_000_000);
        assert(5 * ((2 * one()) * (2 * one())) - 4 * (one() * (2 * one() - one())) == 1_600_000_000);
        assert((100_000_000int * (16 * one())) / 1_600_000_000int == 10_000);
        assert(half_turn_sine(one(), 2 * one()) == one());
    }
    assert(sine_in(one()) == one());
    assert(sine_out(0) == 0);
    assert(sine_out(one()) == one());
    assert(sine_in_out(0) == 0);
    assert(sine_in_out(one()) == one());
}

} // verus!
