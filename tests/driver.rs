use animatable::animation_builder::AnimationBuilder;
use animatable::easing::Easing;
use animatable::flipbook::{FlipbookCommand, FlipbookStatus, UseFlipbook, Wake};
use animatable::rect::Rect;

fn square(x: i64, y: i64) -> Rect {
    Rect::new(x, y, 200, 200)
}

fn linear_to(to: Rect, duration: u64) -> AnimationBuilder {
    AnimationBuilder::default().animate_to(to).with_duration(duration).with_easing(Easing::Linear)
}

fn seeded(rect: Rect) -> UseFlipbook {
    let mut f = UseFlipbook::new();
    f.set_rect(rect);
    f.process_command(0);
    f
}

#[test]
fn starts_resting_without_a_rect() {
    let f = UseFlipbook::new();
    assert_eq!(f.read_status(), FlipbookStatus::Resting);
    assert!(f.read_is_finished());
    assert!(f.peek_is_finished());
    assert_eq!(f.read_rect(), None);
    assert_eq!(f.get_command(), FlipbookCommand::NoCommand);
    assert_eq!(f.read_render_state(), "position: relative;");
}

#[test]
fn play_now_to_the_current_rect_is_dropped() {
    let mut f = seeded(square(0, 0));
    assert_eq!(f.read_rect(), Some(square(0, 0)));
    f.play_now(linear_to(Rect::new(0, 0, 200, 200), 1000));
    f.process_command(10);
    assert_eq!(f.read_status(), FlipbookStatus::Resting);
    assert_eq!(f.read_rect(), Some(square(0, 0)));
    assert_eq!(f.get_command(), FlipbookCommand::NoCommand);
    assert_eq!(f.tick(20), Wake::OnCommand);
    assert_eq!(f.read_rect(), Some(square(0, 0)));
}

#[test]
fn queued_animations_run_in_order() {
    let mut f = seeded(square(0, 0));
    f.queue(linear_to(square(400, 0), 1000));
    f.process_command(0);
    assert_eq!(f.read_status(), FlipbookStatus::Busy);
    assert_eq!(f.read_rect(), Some(square(0, 0)));
    f.queue(linear_to(square(400, 400), 1000));
    f.process_command(10);
    assert_eq!(f.tick(500), Wake::At(516));
    assert_eq!(f.read_rect(), Some(square(200, 0)));
    assert_eq!(f.read_status(), FlipbookStatus::Busy);
    f.tick(1000);
    // the first ends where it should, and the second starts from there
    assert_eq!(f.read_rect(), Some(square(400, 0)));
    assert_eq!(f.read_status(), FlipbookStatus::Busy);
    f.tick(1500);
    assert_eq!(f.read_rect(), Some(square(400, 200)));
    assert_eq!(f.read_status(), FlipbookStatus::Busy);
    assert_eq!(f.tick(2000), Wake::OnCommand);
    assert_eq!(f.read_rect(), Some(square(400, 400)));
    assert_eq!(f.read_status(), FlipbookStatus::Resting);
}

#[test]
fn pause_excludes_paused_time() {
    let mut f = seeded(square(0, 0));
    f.queue(linear_to(square(400, 0), 1000));
    f.process_command(0);
    f.tick(250);
    assert_eq!(f.read_rect(), Some(square(100, 0)));
    f.pause();
    f.process_command(250);
    assert_eq!(f.tick(500), Wake::OnCommand);
    assert_eq!(f.read_rect(), Some(square(100, 0)));
    assert_eq!(f.read_status(), FlipbookStatus::Busy);
    f.resume();
    f.process_command(750);
    f.tick(1000);
    assert_eq!(f.read_rect(), Some(square(200, 0)));
    f.tick(1400);
    assert_eq!(f.read_rect(), Some(square(360, 0)));
    f.tick(1500);
    assert_eq!(f.read_rect(), Some(square(400, 0)));
    assert_eq!(f.read_status(), FlipbookStatus::Resting);
}

#[test]
fn resume_without_pause_changes_nothing() {
    let mut f = seeded(square(0, 0));
    f.queue(linear_to(square(400, 0), 1000));
    f.process_command(0);
    f.resume();
    f.process_command(300);
    f.tick(500);
    assert_eq!(f.read_rect(), Some(square(200, 0)));
}

#[test]
fn a_delay_moves_nothing_and_waits() {
    let mut f = seeded(square(0, 0));
    f.queue(AnimationBuilder::new_delay(300));
    f.process_command(100);
    assert_eq!(f.read_status(), FlipbookStatus::Busy);
    f.queue(linear_to(square(100, 0), 100));
    f.process_command(150);
    assert_eq!(f.tick(200), Wake::At(400));
    assert_eq!(f.read_rect(), Some(square(0, 0)));
    assert_eq!(f.tick(399), Wake::At(400));
    assert_eq!(f.read_rect(), Some(square(0, 0)));
    f.tick(400);
    assert_eq!(f.read_status(), FlipbookStatus::Busy);
    f.tick(450);
    assert_eq!(f.read_rect(), Some(square(50, 0)));
}

#[test]
fn a_delay_alone_ends_resting() {
    let mut f = seeded(square(0, 0));
    f.queue(AnimationBuilder::new_delay(50));
    f.process_command(0);
    assert_eq!(f.read_status(), FlipbookStatus::Busy);
    assert_eq!(f.tick(50), Wake::OnCommand);
    assert_eq!(f.read_status(), FlipbookStatus::Resting);
    assert_eq!(f.read_rect(), Some(square(0, 0)));
}

#[test]
fn explicit_equal_endpoints_still_animate() {
    let mut f = seeded(square(0, 0));
    let same = linear_to(square(0, 0), 1000).animate_from(square(0, 0));
    f.play_now(same);
    f.process_command(0);
    assert_eq!(f.read_status(), FlipbookStatus::Busy);
    f.tick(500);
    assert_eq!(f.read_status(), FlipbookStatus::Busy);
    f.tick(1000);
    assert_eq!(f.read_status(), FlipbookStatus::Resting);
}

#[test]
fn without_a_rect_an_implicit_start_is_dropped() {
    let mut f = UseFlipbook::new();
    f.queue(linear_to(square(10, 10), 100));
    f.process_command(0);
    assert_eq!(f.read_status(), FlipbookStatus::Resting);
    assert_eq!(f.read_rect(), None);
}

#[test]
fn play_now_replaces_the_running_animation() {
    let mut f = seeded(square(0, 0));
    f.queue(linear_to(square(400, 0), 1000));
    f.process_command(0);
    f.queue(linear_to(square(0, 400), 1000));
    f.process_command(0);
    f.tick(500);
    f.play_now(linear_to(square(200, 200), 1000));
    f.process_command(500);
    assert_eq!(f.read_rect(), Some(square(200, 0)));
    f.tick(1000);
    assert_eq!(f.read_rect(), Some(square(200, 100)));
    f.tick(1500);
    assert_eq!(f.read_rect(), Some(square(200, 200)));
    // the queued animation was dropped
    assert_eq!(f.read_status(), FlipbookStatus::Resting);
}

#[test]
fn drop_all_stops_where_it_is() {
    let mut f = seeded(square(0, 0));
    f.queue(linear_to(square(400, 0), 1000));
    f.process_command(0);
    f.queue(linear_to(square(0, 400), 1000));
    f.process_command(0);
    f.tick(500);
    f.drop_all();
    f.process_command(600);
    assert_eq!(f.read_status(), FlipbookStatus::Resting);
    assert_eq!(f.read_rect(), Some(square(200, 0)));
    assert_eq!(f.tick(2000), Wake::OnCommand);
    assert_eq!(f.read_rect(), Some(square(200, 0)));
}

#[test]
fn set_rect_waits_for_an_idle_driver() {
    let mut f = seeded(square(0, 0));
    f.queue(linear_to(square(400, 0), 1000));
    f.process_command(0);
    f.set_rect(square(7, 7));
    f.process_command(10);
    assert_eq!(f.read_rect(), Some(square(0, 0)));
    f.tick(1000);
    f.set_rect(square(7, 7));
    f.process_command(1010);
    assert_eq!(f.peek_rect(), Some(square(7, 7)));
    assert_eq!(f.read_render_state(), "width: 200px; height: 200px; left: 7px; top: 7px;");
}

#[test]
fn a_rejected_request_is_recorded_once() {
    let mut f = seeded(square(0, 0));
    assert_eq!(f.take_rejected(), None);
    let same = linear_to(square(0, 0), 1000);
    f.queue(same);
    f.process_command(0);
    assert_eq!(f.take_rejected(), Some(same));
    assert_eq!(f.take_rejected(), None);
    // an explicit start equal to the end is not rejected
    f.queue(same.animate_from(square(0, 0)));
    f.process_command(0);
    assert_eq!(f.take_rejected(), None);
    assert_eq!(f.read_status(), FlipbookStatus::Busy);
}

#[test]
fn ticks_at_any_rate_follow_running_time() {
    let mut f = seeded(square(0, 0));
    f.queue(linear_to(square(1000, 0), 1000));
    f.process_command(0);
    let mut now = 0;
    while now < 1000 {
        now += 7;
        f.tick(now);
        if now < 1000 {
            assert_eq!(f.read_rect(), Some(square(now as i64, 0)));
            assert_eq!(f.read_status(), FlipbookStatus::Busy);
        }
    }
    assert_eq!(f.read_rect(), Some(square(1000, 0)));
    assert_eq!(f.read_status(), FlipbookStatus::Resting);
}
