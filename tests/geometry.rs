use animatable::css::placement_css;
use animatable::fixed::PROGRESS_ONE;
use animatable::rect::Rect;
use animatable::rectdata::RectData;

#[test]
fn lerp_at_zero_is_start() {
    let a = Rect::new(0, 0, 200, 200);
    let b = Rect::new(400, -100, 100, 300);
    assert_eq!(a.lerp(&b, 0), a);
}

#[test]
fn lerp_at_one_is_end() {
    let a = Rect::new(0, 0, 200, 200);
    let b = Rect::new(400, -100, 100, 300);
    assert_eq!(a.lerp(&b, PROGRESS_ONE), b);
}

#[test]
fn lerp_halfway() {
    let a = Rect::new(0, 0, 200, 200);
    let b = Rect::new(400, -100, 100, 300);
    assert_eq!(a.lerp(&b, PROGRESS_ONE / 2), Rect::new(200, -50, 150, 250));
}

#[test]
fn lerp_rounds_down() {
    let a = Rect::new(0, 0, 0, 0);
    let b = Rect::new(1, -1, 3, -3);
    // a third of the way: 1/3, -1/3, 1, -1 rounded down
    assert_eq!(a.lerp(&b, 3_333), Rect::new(0, -1, 0, -1));
}

#[test]
fn lerp_overshoots_past_end() {
    let a = Rect::new(0, 0, 100, 100);
    let b = Rect::new(100, 0, 100, 100);
    assert_eq!(a.lerp(&b, 11_000), Rect::new(110, 0, 100, 100));
    assert_eq!(a.lerp(&b, -1_000), Rect::new(-10, 0, 100, 100));
}

#[test]
fn lerp_saturates_at_the_integer_range() {
    let a = Rect::new(0, 0, 0, 0);
    let b = Rect::new(i64::MAX, i64::MIN, 0, 0);
    let r = a.lerp(&b, 2 * PROGRESS_ONE);
    assert_eq!(r.x, i64::MAX);
    assert_eq!(r.y, i64::MIN);
}

#[test]
fn rectdata_interpolates_like_rect() {
    let a = RectData::new(0, 0, 200, 200);
    let b = RectData::new(400, 0, 200, 200);
    assert_eq!(a.interpolate_to(PROGRESS_ONE / 4, &b), RectData::new(100, 0, 200, 200));
    assert_eq!(a.interpolate_to(PROGRESS_ONE, &b), b);
}

#[test]
fn rectdata_css() {
    let r = RectData::new(10, 20, 200, 100);
    assert_eq!(r.to_css(), "width: 200px; height: 100px; left: 10px; top: 20px;");
}

#[test]
fn css_of_negative_and_extreme_values() {
    assert_eq!(
        placement_css(-5, 0, i64::MIN, i64::MAX),
        "width: -9223372036854775808px; height: 9223372036854775807px; left: -5px; top: 0px;"
    );
}
