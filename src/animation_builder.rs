//! Requests for an animation, before their endpoints are known.
use vstd::prelude::*;
use crate::animation::{MAX_RATE_120HZ, MAX_RATE_60HZ, MAX_RATE_90HZ};
use crate::easing::Easing;
use crate::rect::Rect;

verus! {

/// An animation request. Without `from` it starts at the current rectangle;
/// without `to` it is a pure delay that moves nothing. `duration` is in
/// milliseconds, `fps_cap` in frames per second.
#[derive(Clone, Copy, Debug, PartialEq, Eq, Structural)]
pub struct AnimationBuilder {
    pub from: Option<Rect>,
    pub to: Option<Rect>,
    pub duration: u64,
    pub easing: Easing,
    pub fps_cap: u64,
}

/// One second, with the symmetric sine curve, at sixty frames per second, from
/// and to nowhere.
pub open spec fn default_builder() -> AnimationBuilder {
    AnimationBuilder {
        from: None,
        to: None,
        duration: 1000,
        easing: Easing::SineInOut,
        fps_cap: MAX_RATE_60HZ,
    }
}

impl Default for AnimationBuilder {
    fn default() -> (r: AnimationBuilder)
        ensures
            r == default_builder(),
    {
        AnimationBuilder {
            from: None,
            to: None,
            duration: 1000,
            easing: Easing::SineInOut,
            fps_cap: MAX_RATE_60HZ,
        }
    }
}

impl AnimationBuilder {
    /// A pure delay of `delay` milliseconds.
    pub fn new_delay(delay: u64) -> (r: AnimationBuilder)
        ensures
            r == (AnimationBuilder { duration: delay, ..default_builder() }),
    {
        AnimationBuilder::default().with_duration(delay)
    }

    pub fn animate_from(self, from: Rect) -> (r: AnimationBuilder)
        ensures
            r == (AnimationBuilder { from: Some(from), ..self }),
    {
        AnimationBuilder { from: Some(from), ..self }
    }

    pub fn animate_to(self, to: Rect) -> (r: AnimationBuilder)
        ensures
            r == (AnimationBuilder { to: Some(to), ..self }),
    {
        AnimationBuilder { to: Some(to), ..self }
    }

    pub fn with_duration(self, duration: u64) -> (r: AnimationBuilder)
        ensures
            r == (AnimationBuilder { duration, ..self }),
    {
        AnimationBuilder { duration, ..self }
    }

    pub fn with_easing(self, easing: Easing) -> (r: AnimationBuilder)
        ensures
            r == (AnimationBuilder { easing, ..self }),
    {
        AnimationBuilder { easing, ..self }
    }

    pub fn at_max_90hz(self) -> (r: AnimationBuilder)
        ensures
            r == (AnimationBuilder { fps_cap: MAX_RATE_90HZ, ..self }),
    {
        AnimationBuilder { fps_cap: MAX_RATE_90HZ, ..self }
    }

    pub fn at_max_120hz(self) -> (r: AnimationBuilder)
        ensures
            r == (AnimationBuilder { fps_cap: MAX_RATE_120HZ, ..self }),
    {
        AnimationBuilder { fps_cap: MAX_RATE_120HZ, ..self }
    }
}

} // verus!
