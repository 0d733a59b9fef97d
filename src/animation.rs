//! A running transition between two rectangles.
use vstd::prelude::*;
use crate::animation_builder::AnimationBuilder;
use crate::easing::{ease_spec, Easing};
use crate::fixed::PROGRESS_ONE;
use crate::rect::{lerp_spec, Rect};

verus! {

pub const MAX_RATE_60HZ: u64 = 60;

pub const MAX_RATE_90HZ: u64 = 90;

pub const MAX_RATE_120HZ: u64 = 120;

/// What a transition holds: its endpoints and curve, its duration and the
/// shortest time a frame may take, in milliseconds, and its linear progress in
/// units of [`PROGRESS_ONE`].
pub struct TransitionView {
    pub from: Rect,
    pub to: Rect,
    pub easing: Easing,
    pub duration: u64,
    pub min_frame_duration: u64,
    pub progress: i64,
}

/// The shortest frame for a cap of `rate` frames per second, in whole
/// milliseconds; a cap of zero sets no limit.
pub open spec fn frame_duration_of(rate: u64) -> u64 {
    if rate == 0 {
        0
    } else {
        (1000int / (rate as int)) as u64
    }
}

/// The transition `builder` asks for, from `from` to `to`, not yet started.
pub open spec fn transition_of(builder: AnimationBuilder, from: Rect, to: Rect) -> TransitionView {
    TransitionView {
        from,
        to,
        easing: builder.easing,
        duration: builder.duration,
        min_frame_duration: frame_duration_of(builder.fps_cap),
        progress: 0,
    }
}

/// Linear progress after `elapsed` of `duration` milliseconds, held to
/// `[0, PROGRESS_ONE]`. A transition of no duration is done at once.
pub open spec fn progress_at(duration: u64, elapsed: u64) -> i64 {
    if duration == 0 || elapsed >= duration {
        PROGRESS_ONE
    } else {
        ((elapsed as int * PROGRESS_ONE as int) / (duration as int)) as i64
    }
}

/// The rectangle shown at linear progress `progress`.
pub open spec fn frame_at(t: TransitionView, progress: i64) -> Rect {
    lerp_spec(t.from, t.to, ease_spec(t.easing, progress as int))
}

/// `t` after a step to `elapsed` milliseconds.
pub open spec fn stepped(t: TransitionView, elapsed: u64) -> TransitionView {
    TransitionView { progress: progress_at(t.duration, elapsed), ..t }
}

/// Finished once linear progress reaches one.
pub open spec fn finished(t: TransitionView) -> bool {
    t.progress >= PROGRESS_ONE
}

#[derive(Clone, Copy, Debug, PartialEq, Eq)]
pub struct AnimationTransition {
    pub from: Rect,
    pub to: Rect,
    pub easing: Easing,
    pub duration: u64,
    pub min_frame_duration: u64,
    pub linear_progress: i64,
}

impl View for AnimationTransition {
    type V = TransitionView;

    open spec fn view(&self) -> TransitionView {
        TransitionView {
            from: self.from,
            to: self.to,
            easing: self.easing,
            duration: self.duration,
            min_frame_duration: self.min_frame_duration,
            progress: self.linear_progress,
        }
    }
}

impl AnimationTransition {
    /// Progress stays in `[0, PROGRESS_ONE]`.
    pub open spec fn wf(&self) -> bool {
        0 <= self@.progress <= PROGRESS_ONE
    }

    pub fn new(builder: AnimationBuilder, from: Rect, to: Rect) -> (r: AnimationTransition)
        ensures
            r@ == transition_of(builder, from, to),
            r.wf(),
    {
        let min_frame_duration = Self::get_frame_duration_from_refresh_rate(builder.fps_cap);
        AnimationTransition {
            from,
            to,
            easing: builder.easing,
            duration: builder.duration,
            min_frame_duration,
            linear_progress: 0,
        }
    }

    fn get_frame_duration_from_refresh_rate(max_refresh_rate: u64) -> (r: u64)
        ensures
            r == frame_duration_of(max_refresh_rate),
    {
        if max_refresh_rate == 0 {
            0
        } else {
            1000 / max_refresh_rate
        }
    }

    /// Moves linear progress to where `total_elapsed` milliseconds put it and
    /// returns the eased rectangle there.
    pub fn step(&mut self, total_elapsed: u64) -> (r: Rect)
        ensures
            final(self)@ == stepped(old(self)@, total_elapsed),
            final(self).wf(),
            r == frame_at(final(self)@, final(self)@.progress),
    {
        let progress: i64 = if self.duration == 0 || total_elapsed >= self.duration {
            PROGRESS_ONE
        } else {
            let scaled: u128 = total_elapsed as u128 * PROGRESS_ONE as u128;
            proof {
                crate::arith::lemma_div_range(scaled as int, self.duration as int, 0, PROGRESS_ONE as int);
            }
            (scaled / self.duration as u128) as i64
        };
        self.linear_progress = progress;
        let eased = self.easing.ease(progress);
        self.from.lerp(&self.to, eased)
    }

    /// How long to wait after a frame that took `frame_duration` milliseconds, so
    /// that it does not end sooner than the shortest frame after it began.
    pub fn frame_delay(&self, frame_duration: u64) -> (r: u64)
        ensures
            r == (if frame_duration < self@.min_frame_duration {
                self@.min_frame_duration - frame_duration
            } else {
                0
            }),
    {
        if frame_duration < self.min_frame_duration {
            self.min_frame_duration - frame_duration
        } else {
            0
        }
    }

    /// The rectangle the transition ends at.
    pub fn end_rect(&self) -> (r: Rect)
        ensures
            r == self@.to,
    {
        self.to
    }

    pub fn min_frame_duration(&self) -> (r: u64)
        ensures
            r == self@.min_frame_duration,
    {
        self.min_frame_duration
    }

    pub fn is_finished(&self) -> (r: bool)
        ensures
            r == finished(self@),
    {
        self.linear_progress >= PROGRESS_ONE
    }
}

/// Driven to or past its duration, a transition of positive duration is finished
/// and shows its end rectangle exactly.
pub proof fn lemma_step_reaches_end(t: TransitionView, elapsed: u64)
    requires
        t.duration > 0,
        elapsed >= t.duration,
    ensures
        finished(stepped(t, elapsed)),
        frame_at(stepped(t, elapsed), stepped(t, elapsed).progress) == t.to,
{
    crate::easing::lemma_ease_ends(t.easing);
    crate::rect::lemma_lerp_endpoints(t.from, t.to);
}

/// Before its duration has run, a transition is not finished.
pub proof fn lemma_unfinished_before_duration(t: TransitionView, elapsed: u64)
    requires
        elapsed < t.duration,
    ensures
        !finished(stepped(t, elapsed)),
        0 <= stepped(t, elapsed).progress < PROGRESS_ONE,
{
    let e = elapsed as int;
    let d = t.duration as int;
    assert(0 <= e * 10_000 < d * 10_000) by (nonlinear_arith)
        requires
            0 <= e < d,
    ;
    crate::arith::lemma_div_range(e * 10_000, d, 0, 10_000);
    if (e * 10_000) / d == 10_000 {
        vstd::arithmetic::div_mod::lemma_fundamental_div_mod(e * 10_000, d);
        assert(false) by (nonlinear_arith)
            requires
                e * 10_000 == d * ((e * 10_000) / d) + (e * 10_000) % d,
                (e * 10_000) / d == 10_000,
                (e * 10_000) % d >= 0,
                e < d,
        ;
    }
}

} // verus!
