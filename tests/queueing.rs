use animatable::animation_builder::AnimationBuilder;
use animatable::animation_queue::AnimationQueue;
use animatable::rect::Rect;

fn to_x(x: i64) -> AnimationBuilder {
    AnimationBuilder::default().animate_to(Rect::new(x, 0, 10, 10))
}

#[test]
fn queue_is_fifo() {
    let mut q = AnimationQueue::new();
    assert!(q.is_empty());
    q.push(to_x(1));
    q.push(to_x(2));
    q.push(to_x(3));
    assert_eq!(q.size(), 3);
    assert_eq!(q.pop_front(), Some(to_x(1)));
    assert_eq!(q.pop_front(), Some(to_x(2)));
    assert_eq!(q.pop_front(), Some(to_x(3)));
    assert_eq!(q.pop_front(), None);
    assert!(q.is_empty());
}

#[test]
fn play_now_leaves_only_the_new_entry() {
    let mut q = AnimationQueue::new();
    q.push(to_x(1));
    q.push(to_x(2));
    q.play_now(to_x(9));
    assert_eq!(q.size(), 1);
    assert_eq!(q.pop_front(), Some(to_x(9)));
    assert!(q.is_empty());
}

#[test]
fn play_now_on_an_empty_queue() {
    let mut q = AnimationQueue::new();
    q.play_now(to_x(4));
    assert_eq!(q.size(), 1);
    assert_eq!(q.pop_front(), Some(to_x(4)));
}

#[test]
fn drop_all_empties() {
    let mut q = AnimationQueue::new();
    q.push(to_x(1));
    q.push(to_x(2));
    q.drop_all();
    assert!(q.is_empty());
    assert_eq!(q.size(), 0);
}
