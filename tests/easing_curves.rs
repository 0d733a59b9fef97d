use animatable::easing::Easing;
use animatable::fixed::PROGRESS_ONE;

const ALL: [Easing; 31] = [
    Easing::Linear,
    Easing::BackIn,
    Easing::BackOut,
    Easing::BackInOut,
    Easing::BounceIn,
    Easing::BounceOut,
    Easing::BounceInOut,
    Easing::CircIn,
    Easing::CircOut,
    Easing::CircInOut,
    Easing::CubicIn,
    Easing::CubicOut,
    Easing::CubicInOut,
    Easing::ElasticIn,
    Easing::ElasticOut,
    Easing::ElasticInOut,
    Easing::ExpoIn,
    Easing::ExpoOut,
    Easing::ExpoInOut,
    Easing::QuadIn,
    Easing::QuadOut,
    Easing::QuadInOut,
    Easing::QuartIn,
    Easing::QuartOut,
    Easing::QuartInOut,
    Easing::QuintIn,
    Easing::QuintOut,
    Easing::QuintInOut,
    Easing::SineIn,
    Easing::SineOut,
    Easing::SineInOut,
];

#[test]
fn every_curve_starts_at_zero_and_ends_at_one() {
    for e in ALL {
        assert_eq!(e.ease(0), 0, "{:?} at zero", e);
        assert_eq!(e.ease(PROGRESS_ONE), PROGRESS_ONE, "{:?} at one", e);
    }
}

#[test]
fn every_curve_stays_near_the_unit_range() {
    for e in ALL {
        let mut p = 0;
        while p <= PROGRESS_ONE {
            let v = e.ease(p);
            assert!(v >= -2 * PROGRESS_ONE && v <= 3 * PROGRESS_ONE, "{:?} at {}", e, p);
            p += 37;
        }
    }
}

#[test]
fn polynomial_curves_at_half() {
    let half = PROGRESS_ONE / 2;
    assert_eq!(Easing::Linear.ease(half), 5_000);
    assert_eq!(Easing::QuadIn.ease(half), 2_500);
    assert_eq!(Easing::QuadOut.ease(half), 7_500);
    assert_eq!(Easing::QuadInOut.ease(half), 5_000);
    assert_eq!(Easing::CubicIn.ease(half), 1_250);
    assert_eq!(Easing::CubicOut.ease(half), 8_750);
    assert_eq!(Easing::QuartIn.ease(half), 625);
    assert_eq!(Easing::QuintIn.ease(half), 312);
    assert_eq!(Easing::QuintOut.ease(half), 9_688);
}

#[test]
fn polynomial_in_out_at_a_quarter() {
    // (2 * 0.25)^2 / 2 = 0.125
    assert_eq!(Easing::QuadInOut.ease(2_500), 1_250);
    // 1 - (2 - 1.5)^3 / 2 = 0.9375
    assert_eq!(Easing::CubicInOut.ease(7_500), 9_375);
}

#[test]
fn sine_curves() {
    // sin(pi / 4) = 0.7071; the rational approximation gives 0.7058
    assert_eq!(Easing::SineOut.ease(5_000), 7_058);
    assert_eq!(Easing::SineIn.ease(5_000), 2_942);
    assert_eq!(Easing::SineInOut.ease(5_000), 5_000);
}

#[test]
fn circular_curves() {
    // sqrt(1 - 0.25) = 0.8660
    assert_eq!(Easing::CircOut.ease(5_000), 8_660);
    assert_eq!(Easing::CircIn.ease(5_000), 1_340);
}

#[test]
fn exponential_curves() {
    // 2^-5 = 0.03125
    assert_eq!(Easing::ExpoIn.ease(5_000), 312);
    assert_eq!(Easing::ExpoOut.ease(5_000), 9_688);
    assert_eq!(Easing::ExpoInOut.ease(5_000), 5_000);
}

#[test]
fn back_curves_overshoot() {
    // x^2 (2.70158 x - 1.70158) at one half = -0.0876975
    assert_eq!(Easing::BackIn.ease(5_000), -877);
    assert_eq!(Easing::BackOut.ease(5_000), 10_876);
}

#[test]
fn bounce_curves() {
    // 7.5625 (0.5 - 1.5 / 2.75)^2 + 0.75 = 0.765625
    assert_eq!(Easing::BounceOut.ease(5_000), 7_656);
    assert_eq!(Easing::BounceIn.ease(5_000), 2_344);
    // first parabola: 7.5625 * 0.2^2 = 0.3025
    assert_eq!(Easing::BounceOut.ease(2_000), 3_025);
}

#[test]
fn elastic_out_overshoots_one() {
    let mut max = 0;
    let mut p = 0;
    while p <= PROGRESS_ONE {
        max = max.max(Easing::ElasticOut.ease(p));
        p += 10;
    }
    assert!(max > PROGRESS_ONE);
}
