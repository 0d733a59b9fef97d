//! A controller handle that holds a status, a rectangle and one pending command.
use vstd::prelude::*;
use crate::animation_builder::{default_builder, AnimationBuilder};
use crate::rect::Rect;

verus! {

#[derive(Clone, Copy, Debug, PartialEq, Eq, Structural)]
pub enum AnimationControllerStatus {
    Busy,
    Resting,
}

#[derive(Clone, Copy, Debug, PartialEq, Eq, Structural)]
pub enum AnimationCommand {
    Resume,
    Pause,
    PlayNow(AnimationBuilder),
    DropAll,
    Queue(AnimationBuilder),
    SetRect(Rect),
    NoCommand,
}

/// What a controller holds.
pub struct AnimationControllerView {
    pub status: AnimationControllerStatus,
    pub rect: Option<Rect>,
    pub command: AnimationCommand,
}

/// The request that [`AnimationController::queue_to_400`] queues: two seconds
/// from a 200 by 200 square at the origin to the same square 400 to the right.
pub open spec fn move_to_400() -> AnimationBuilder {
    AnimationBuilder {
        from: Some(Rect { x: 0, y: 0, width: 200, height: 200 }),
        to: Some(Rect { x: 400, y: 0, width: 200, height: 200 }),
        duration: 2000,
        ..default_builder()
    }
}

#[derive(Clone, Copy, Debug, PartialEq, Eq)]
pub struct AnimationController {
    status: AnimationControllerStatus,
    rect: Option<Rect>,
    command: AnimationCommand,
}

impl View for AnimationController {
    type V = AnimationControllerView;

    closed spec fn view(&self) -> AnimationControllerView {
        AnimationControllerView { status: self.status, rect: self.rect, command: self.command }
    }
}

impl Default for AnimationController {
    fn default() -> (r: AnimationController)
        ensures
            r@ == (AnimationControllerView {
                status: AnimationControllerStatus::Resting,
                rect: None,
                command: AnimationCommand::NoCommand,
            }),
    {
        AnimationController {
            status: AnimationControllerStatus::Resting,
            rect: None,
            command: AnimationCommand::NoCommand,
        }
    }
}

impl AnimationController {
    pub fn get_status(&self) -> (r: AnimationControllerStatus)
        ensures
            r == self@.status,
    {
        self.status
    }

    pub fn is_finished(&self) -> (r: bool)
        ensures
            r == (self@.status == AnimationControllerStatus::Resting),
    {
        self.status == AnimationControllerStatus::Resting
    }

    pub fn set_busy(&mut self)
        ensures
            final(self)@ == (AnimationControllerView { status: AnimationControllerStatus::Busy, ..old(self)@ }),
    {
        self.status = AnimationControllerStatus::Busy;
    }

    pub fn set_resting(&mut self)
        ensures
            final(self)@ == (AnimationControllerView { status: AnimationControllerStatus::Resting, ..old(self)@ }),
    {
        self.status = AnimationControllerStatus::Resting;
    }

    pub fn queue(&mut self, anim: AnimationBuilder)
        ensures
            final(self)@ == (AnimationControllerView { command: AnimationCommand::Queue(anim), ..old(self)@ }),
    {
        self.command = AnimationCommand::Queue(anim);
    }

    pub fn queue_to_400(&mut self)
        ensures
            final(self)@ == (AnimationControllerView { command: AnimationCommand::Queue(move_to_400()), ..old(self)@ }),
    {
        let anim = AnimationBuilder::default()
            .animate_from(Rect::new(0, 0, 200, 200))
            .animate_to(Rect::new(400, 0, 200, 200))
            .with_duration(2000);
        self.queue(anim);
    }

    pub fn play_now(&mut self, anim: AnimationBuilder)
        ensures
            final(self)@ == (AnimationControllerView { command: AnimationCommand::PlayNow(anim), ..old(self)@ }),
    {
        self.command = AnimationCommand::PlayNow(anim);
    }

    pub fn resume(&mut self)
        ensures
            final(self)@ == (AnimationControllerView { command: AnimationCommand::Resume, ..old(self)@ }),
    {
        self.command = AnimationCommand::Resume;
    }

    pub fn pause(&mut self)
        ensures
            final(self)@ == (AnimationControllerView { command: AnimationCommand::Pause, ..old(self)@ }),
    {
        self.command = AnimationCommand::Pause;
    }

    pub fn drop_all(&mut self)
        ensures
            final(self)@ == (AnimationControllerView { command: AnimationCommand::DropAll, ..old(self)@ }),
    {
        self.command = AnimationCommand::DropAll;
    }

    pub fn set_rect(&mut self, rect: Rect)
        ensures
            final(self)@ == (AnimationControllerView { command: AnimationCommand::SetRect(rect), ..old(self)@ }),
    {
        self.command = AnimationCommand::SetRect(rect);
    }

    pub fn get_rect(&self) -> (r: Option<Rect>)
        ensures
            r == self@.rect,
    {
        self.rect
    }

    pub fn private_set_rect(&mut self, rect: Rect)
        ensures
            final(self)@ == (AnimationControllerView { rect: Some(rect), ..old(self)@ }),
    {
        self.rect = Some(rect);
    }

    pub fn clear_command(&mut self)
        ensures
            final(self)@ == (AnimationControllerView { command: AnimationCommand::NoCommand, ..old(self)@ }),
    {
        self.command = AnimationCommand::NoCommand;
    }

    pub fn get_command(&self) -> (r: AnimationCommand)
        ensures
            r == self@.command,
    {
        self.command
    }
}

} // verus!
