use animatable::animation::{AnimationTransition, MAX_RATE_120HZ, MAX_RATE_60HZ, MAX_RATE_90HZ};
use animatable::animation_builder::AnimationBuilder;
use animatable::easing::Easing;
use animatable::rect::Rect;
use animatable::stopwatch::Stopwatch;

fn linear(duration: u64) -> AnimationBuilder {
    AnimationBuilder::default().with_duration(duration).with_easing(Easing::Linear)
}

#[test]
fn stopwatch_accumulates_laps() {
    let mut w = Stopwatch::new();
    assert_eq!(w.get_elapsed(500), 0);
    w.start(100);
    assert_eq!(w.get_elapsed(150), 50);
    assert_eq!(w.get_elapsed(180), 80);
    w.stop(200);
    assert_eq!(w.get_elapsed(1_000), 100);
    w.start(1_000);
    assert_eq!(w.get_elapsed(1_100), 200);
    w.clear();
    assert_eq!(w.get_elapsed(5_000), 0);
}

#[test]
fn stopwatch_pause_keeps_elapsed() {
    let mut w = Stopwatch::new();
    w.start(0);
    w.stop(300);
    let before = w.get_elapsed(300);
    w.start(800);
    assert_eq!(w.get_elapsed(800), before);
    assert_eq!(w.get_elapsed(900), before + 100);
}

#[test]
fn stopwatch_ignores_a_clock_that_goes_back() {
    let mut w = Stopwatch::new();
    w.start(500);
    assert_eq!(w.get_elapsed(400), 0);
    assert_eq!(w.get_elapsed(450), 50);
}

#[test]
fn builder_defaults() {
    let b = AnimationBuilder::default();
    assert_eq!(b.from, None);
    assert_eq!(b.to, None);
    assert_eq!(b.duration, 1000);
    assert_eq!(b.easing, Easing::SineInOut);
    assert_eq!(b.fps_cap, MAX_RATE_60HZ);
}

#[test]
fn builder_setters() {
    let r = Rect::new(1, 2, 3, 4);
    let b = AnimationBuilder::default()
        .animate_from(r)
        .animate_to(Rect::new(5, 6, 7, 8))
        .with_duration(250)
        .with_easing(Easing::BounceOut)
        .at_max_90hz();
    assert_eq!(b.from, Some(r));
    assert_eq!(b.to, Some(Rect::new(5, 6, 7, 8)));
    assert_eq!(b.duration, 250);
    assert_eq!(b.easing, Easing::BounceOut);
    assert_eq!(b.fps_cap, MAX_RATE_90HZ);
    assert_eq!(b.at_max_120hz().fps_cap, MAX_RATE_120HZ);
}

#[test]
fn new_delay_has_no_endpoints() {
    let b = AnimationBuilder::new_delay(300);
    assert_eq!(b.to, None);
    assert_eq!(b.from, None);
    assert_eq!(b.duration, 300);
}

#[test]
fn transition_steps_linearly() {
    let a = Rect::new(0, 0, 200, 200);
    let b = Rect::new(400, 0, 200, 200);
    let mut t = AnimationTransition::new(linear(1000), a, b);
    assert!(!t.is_finished());
    assert_eq!(t.step(0), a);
    assert_eq!(t.step(250), Rect::new(100, 0, 200, 200));
    assert!(!t.is_finished());
    assert_eq!(t.step(500), Rect::new(200, 0, 200, 200));
    assert_eq!(t.step(1000), b);
    assert!(t.is_finished());
}

#[test]
fn transition_past_its_duration_ends_at_to() {
    let a = Rect::new(0, 0, 10, 10);
    let b = Rect::new(-50, 70, 30, 5);
    for easing in [Easing::ElasticOut, Easing::BackInOut, Easing::SineInOut, Easing::BounceIn] {
        let mut t = AnimationTransition::new(AnimationBuilder::default().with_easing(easing), a, b);
        assert_eq!(t.step(5_000), b);
        assert!(t.is_finished());
    }
}

#[test]
fn zero_duration_finishes_at_once() {
    let a = Rect::new(0, 0, 10, 10);
    let b = Rect::new(10, 0, 10, 10);
    let mut t = AnimationTransition::new(linear(0), a, b);
    assert_eq!(t.step(0), b);
    assert!(t.is_finished());
}

#[test]
fn frame_pacing_follows_the_cap() {
    let a = Rect::new(0, 0, 10, 10);
    let t60 = AnimationTransition::new(AnimationBuilder::default(), a, a);
    assert_eq!(t60.min_frame_duration(), 16);
    assert_eq!(t60.frame_delay(5), 11);
    assert_eq!(t60.frame_delay(16), 0);
    assert_eq!(t60.frame_delay(40), 0);
    let t90 = AnimationTransition::new(AnimationBuilder::default().at_max_90hz(), a, a);
    assert_eq!(t90.min_frame_duration(), 11);
    let t120 = AnimationTransition::new(AnimationBuilder::default().at_max_120hz(), a, a);
    assert_eq!(t120.min_frame_duration(), 8);
    let mut uncapped = AnimationBuilder::default();
    uncapped.fps_cap = 0;
    let t0 = AnimationTransition::new(uncapped, a, a);
    assert_eq!(t0.frame_delay(0), 0);
}

#[test]
fn stopped_stopwatch_reads_its_time_at_any_later_time() {
    let mut w = Stopwatch::new();
    assert_eq!(w.get_elapsed(10), 0);
    assert_eq!(w.get_elapsed(9_999), 0);
    w.start(0);
    w.stop(40);
    assert_eq!(w.get_elapsed(41), 40);
    assert_eq!(w.get_elapsed(100_000), 40);
    w.clear();
    assert_eq!(w.get_elapsed(200_000), 0);
}

#[test]
fn transition_fields_match_the_request() {
    let a = Rect::new(0, 0, 10, 10);
    let b = Rect::new(5, 5, 10, 10);
    let t = AnimationTransition::new(linear(700).at_max_120hz(), a, b);
    assert_eq!(t.from, a);
    assert_eq!(t.to, b);
    assert_eq!(t.easing, Easing::Linear);
    assert_eq!(t.duration, 700);
    assert_eq!(t.min_frame_duration, 8);
    assert_eq!(t.linear_progress, 0);
}
