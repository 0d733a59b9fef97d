//! The first-in, first-out backlog of animation requests.
use vstd::prelude::*;
use std::collections::VecDeque;
use crate::animation_builder::AnimationBuilder;

verus! {

#[derive(Clone, Debug, PartialEq)]
pub struct AnimationQueue {
    queue: VecDeque<AnimationBuilder>,
}

impl View for AnimationQueue {
    type V = Seq<AnimationBuilder>;

    /// The waiting requests, the next one first.
    closed spec fn view(&self) -> Seq<AnimationBuilder> {
        self.queue@
    }
}

impl AnimationQueue {
    pub fn new() -> (r: AnimationQueue)
        ensures
            r@ == Seq::<AnimationBuilder>::empty(),
    {
        AnimationQueue { queue: VecDeque::new() }
    }

    pub fn drop_all(&mut self)
        ensures
            final(self)@ == Seq::<AnimationBuilder>::empty(),
    {
        self.queue.clear();
    }

    /// Drops every waiting request and leaves `anim` alone in the queue.
    pub fn play_now(&mut self, anim: AnimationBuilder)
        ensures
            final(self)@ == seq![anim],
    {
        self.drop_all();
        self.push(anim);
        assert(final(self)@ =~= seq![anim]);
    }

    pub fn push(&mut self, anim: AnimationBuilder)
        ensures
            final(self)@ == old(self)@.push(anim),
    {
        self.queue.push_back(anim);
    }

    pub fn is_empty(&self) -> (r: bool)
        ensures
            r == (self@.len() == 0),
    {
        self.queue.len() == 0
    }

    /// Takes the request that has waited longest, if any.
    pub fn pop_front(&mut self) -> (r: Option<AnimationBuilder>)
        ensures
            old(self)@.len() == 0 ==> r is None && final(self)@ == old(self)@,
            old(self)@.len() > 0 ==> r == Some(old(self)@[0]) && final(self)@ == old(self)@.drop_first(),
    {
        self.queue.pop_front()
    }

    pub fn size(&self) -> (r: usize)
        ensures
            r == self@.len(),
    {
        self.queue.len()
    }
}

} // verus!
