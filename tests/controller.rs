use animatable::animation_builder::AnimationBuilder;
use animatable::animation_controller::{AnimationCommand, AnimationController, AnimationControllerStatus};
use animatable::rect::Rect;

#[test]
fn controller_defaults() {
    let c = AnimationController::default();
    assert_eq!(c.get_status(), AnimationControllerStatus::Resting);
    assert!(c.is_finished());
    assert_eq!(c.get_rect(), None);
    assert_eq!(c.get_command(), AnimationCommand::NoCommand);
}

#[test]
fn controller_status() {
    let mut c = AnimationController::default();
    c.set_busy();
    assert_eq!(c.get_status(), AnimationControllerStatus::Busy);
    assert!(!c.is_finished());
    c.set_resting();
    assert!(c.is_finished());
}

#[test]
fn controller_commands_replace_each_other() {
    let mut c = AnimationController::default();
    let b = AnimationBuilder::default().animate_to(Rect::new(1, 1, 1, 1));
    c.queue(b);
    assert_eq!(c.get_command(), AnimationCommand::Queue(b));
    c.play_now(b);
    assert_eq!(c.get_command(), AnimationCommand::PlayNow(b));
    c.pause();
    assert_eq!(c.get_command(), AnimationCommand::Pause);
    c.resume();
    assert_eq!(c.get_command(), AnimationCommand::Resume);
    c.drop_all();
    assert_eq!(c.get_command(), AnimationCommand::DropAll);
    c.set_rect(Rect::new(2, 2, 2, 2));
    assert_eq!(c.get_command(), AnimationCommand::SetRect(Rect::new(2, 2, 2, 2)));
    c.clear_command();
    assert_eq!(c.get_command(), AnimationCommand::NoCommand);
}

#[test]
fn controller_queue_to_400() {
    let mut c = AnimationController::default();
    c.queue_to_400();
    let expected = AnimationBuilder::default()
        .animate_from(Rect::new(0, 0, 200, 200))
        .animate_to(Rect::new(400, 0, 200, 200))
        .with_duration(2000);
    assert_eq!(c.get_command(), AnimationCommand::Queue(expected));
}

#[test]
fn controller_private_set_rect() {
    let mut c = AnimationController::default();
    c.private_set_rect(Rect::new(3, 4, 5, 6));
    assert_eq!(c.get_rect(), Some(Rect::new(3, 4, 5, 6)));
    assert_eq!(c.get_command(), AnimationCommand::NoCommand);
}
