//! The driver: a state machine that owns the queue and the running transition,
//! takes commands, and advances the transition frame by frame.
//!
//! The host runs it. It hands every command to [`UseFlipbook::process_command`]
//! and calls [`UseFlipbook::tick`] at the time that the previous call asked for,
//! with the current time in milliseconds each time.
use vstd::prelude::*;
use vstd::string::StringExecFns;
use crate::animation::{finished, frame_at, stepped, transition_of, AnimationTransition, TransitionView};
use crate::animation_builder::AnimationBuilder;
use crate::animation_queue::AnimationQueue;
use crate::css::{placement, placement_css};
use crate::rect::Rect;
use crate::stopwatch::{cleared, lap_closed, lapped, saturating_sum, stopped, Stopwatch, StopwatchView};

verus! {

#[derive(Clone, Copy, Debug, PartialEq, Eq, Structural)]
pub enum FlipbookStatus {
    Busy,
    Resting,
}

/// A command from the caller, waiting to be processed.
#[derive(Clone, Copy, Debug, PartialEq, Eq, Structural)]
pub enum FlipbookCommand {
    Resume,
    Pause,
    PlayNow(AnimationBuilder),
    DropAll,
    Queue(AnimationBuilder),
    SetRect(Rect),
    NoCommand,
}

/// When the host should call [`UseFlipbook::tick`] next.
#[derive(Clone, Copy, Debug, PartialEq, Eq, Structural)]
pub enum Wake {
    /// At this time, in milliseconds.
    At(u64),
    /// Not before the next command.
    OnCommand,
}

/// What the driver is doing.
pub enum ActivityView {
    Idle,
    /// A pure delay, ending at `until`.
    Delaying { until: u64 },
    Animating(TransitionView),
    Paused(TransitionView),
}

/// The whole state of a driver.
pub struct FlipbookView {
    pub rect: Option<Rect>,
    pub status: FlipbookStatus,
    pub command: FlipbookCommand,
    pub queue: Seq<AnimationBuilder>,
    pub activity: ActivityView,
    pub watch: StopwatchView,
    /// The last request dropped because it would start where it ends, until taken.
    pub rejected: Option<AnimationBuilder>,
}

/// `position: relative;`
pub open spec fn relative_position() -> Seq<char> {
    seq!['p', 'o', 's', 'i', 't', 'i', 'o', 'n', ':', ' ', 'r', 'e', 'l', 'a', 't', 'i', 'v', 'e', ';']
}

pub open spec fn initial() -> FlipbookView {
    FlipbookView {
        rect: None,
        status: FlipbookStatus::Resting,
        command: FlipbookCommand::NoCommand,
        queue: Seq::empty(),
        activity: ActivityView::Idle,
        watch: cleared(),
        rejected: None,
    }
}

/// The driver's invariant: idle only with nothing queued, resting exactly when
/// idle, the stopwatch running exactly while a transition runs.
pub open spec fn wf(s: FlipbookView) -> bool {
    &&& (s.activity is Idle ==> s.queue.len() == 0)
    &&& (s.status == FlipbookStatus::Resting <==> s.activity is Idle)
    &&& (s.activity is Animating ==> s.watch.lap_start is Some)
    &&& (s.activity is Paused ==> s.watch.lap_start is None)
}

/// `s` with the transition from `from` to `to` that `builder` asks for begun at `now`.
pub open spec fn started(s: FlipbookView, builder: AnimationBuilder, from: Rect, to: Rect, now: u64) -> FlipbookView {
    FlipbookView {
        rect: Some(from),
        status: FlipbookStatus::Busy,
        activity: ActivityView::Animating(transition_of(builder, from, to)),
        watch: StopwatchView { lap_start: Some(now), elapsed: 0 },
        ..s
    }
}

/// An idle driver takes requests from the queue until one starts: a delay, or a
/// transition that moves. A request without `from` starts at the current
/// rectangle; it is dropped where there is none, or where it equals `to`, and
/// in that last case recorded as rejected. A driver left idle rests.
pub open spec fn evaluate(s: FlipbookView, now: u64) -> FlipbookView
    decreases s.queue.len(),
{
    if !(s.activity is Idle) {
        s
    } else if s.queue.len() == 0 {
        FlipbookView { status: FlipbookStatus::Resting, ..s }
    } else {
        let b = s.queue[0];
        let rest = FlipbookView { queue: s.queue.drop_first(), ..s };
        match b.to {
            None => FlipbookView {
                activity: ActivityView::Delaying { until: saturating_sum(now as int, b.duration as int) },
                status: FlipbookStatus::Busy,
                ..rest
            },
            Some(to) => match b.from {
                Some(from) => started(rest, b, from, to, now),
                None => match s.rect {
                    Some(from) => if from == to {
                        evaluate(FlipbookView { rejected: Some(b), ..rest }, now)
                    } else {
                        started(rest, b, from, to, now)
                    },
                    None => evaluate(rest, now),
                },
            },
        }
    }
}

/// The driver after processing its pending command at `now`.
pub open spec fn after_command(s: FlipbookView, now: u64) -> FlipbookView {
    let s0 = FlipbookView { command: FlipbookCommand::NoCommand, ..s };
    match s.command {
        FlipbookCommand::Resume => match s.activity {
            ActivityView::Paused(t) => FlipbookView {
                activity: ActivityView::Animating(t),
                watch: StopwatchView { lap_start: Some(now), elapsed: s.watch.elapsed },
                ..s0
            },
            _ => s0,
        },
        FlipbookCommand::Pause => match s.activity {
            ActivityView::Animating(t) => FlipbookView {
                activity: ActivityView::Paused(t),
                watch: stopped(s.watch, now),
                ..s0
            },
            _ => s0,
        },
        FlipbookCommand::DropAll => FlipbookView {
            activity: ActivityView::Idle,
            watch: cleared(),
            queue: Seq::empty(),
            status: FlipbookStatus::Resting,
            ..s0
        },
        FlipbookCommand::Queue(b) => evaluate(FlipbookView { queue: s.queue.push(b), ..s0 }, now),
        FlipbookCommand::PlayNow(b) => evaluate(
            FlipbookView {
                activity: ActivityView::Idle,
                watch: cleared(),
                status: FlipbookStatus::Busy,
                queue: seq![b],
                ..s0
            },
            now,
        ),
        FlipbookCommand::SetRect(r) => if s.activity is Idle {
            FlipbookView { rect: Some(r), ..s0 }
        } else {
            s0
        },
        FlipbookCommand::NoCommand => s,
    }
}

/// The driver after a tick at `now`: a delay that is over gives way to the queue;
/// a running transition steps to the time its stopwatch shows, and once finished
/// leaves its end rectangle and gives way to the queue.
pub open spec fn after_tick(s: FlipbookView, now: u64) -> FlipbookView {
    match s.activity {
        ActivityView::Delaying { until } => if now >= until {
            evaluate(FlipbookView { activity: ActivityView::Idle, ..s }, now)
        } else {
            s
        },
        ActivityView::Animating(t) => {
            let next = stepped(t, lap_closed(s.watch, now));
            if finished(next) {
                evaluate(
                    FlipbookView {
                        activity: ActivityView::Idle,
                        rect: Some(t.to),
                        watch: cleared(),
                        ..s
                    },
                    now,
                )
            } else {
                FlipbookView {
                    activity: ActivityView::Animating(next),
                    rect: Some(frame_at(next, next.progress)),
                    watch: lapped(s.watch, now),
                    ..s
                }
            }
        },
        _ => s,
    }
}

/// When a driver in state `s` at `now` wants its next tick: the end of a delay,
/// or one shortest frame after `now` while a transition runs.
pub open spec fn wake_of(s: FlipbookView, now: u64) -> Wake {
    match s.activity {
        ActivityView::Delaying { until } => Wake::At(until),
        ActivityView::Animating(t) => Wake::At(saturating_sum(now as int, t.min_frame_duration as int)),
        _ => Wake::OnCommand,
    }
}

/// Taking requests from the queue leaves the driver either running something
/// and busy, or idle, with nothing queued, and resting.
pub proof fn lemma_evaluate_settles(s: FlipbookView, now: u64)
    requires
        s.activity is Idle,
    ensures
        ({
            let e = evaluate(s, now);
            &&& wf(e)
            &&& e.command == s.command
        }),
    decreases s.queue.len(),
{
    if s.queue.len() > 0 {
        let rest = FlipbookView { queue: s.queue.drop_first(), ..s };
        lemma_evaluate_settles(rest, now);
        lemma_evaluate_settles(FlipbookView { rejected: Some(s.queue[0]), ..rest }, now);
    }
}

/// Processing a command keeps the driver's invariant.
pub proof fn lemma_command_keeps_wf(s: FlipbookView, now: u64)
    requires
        wf(s),
    ensures
        wf(after_command(s, now)),
{
    let s0 = FlipbookView { command: FlipbookCommand::NoCommand, ..s };
    match s.command {
        FlipbookCommand::Queue(b) => {
            let q = FlipbookView { queue: s.queue.push(b), ..s0 };
            if q.activity is Idle {
                lemma_evaluate_settles(q, now);
            }
        },
        FlipbookCommand::PlayNow(b) => {
            lemma_evaluate_settles(
                FlipbookView {
                    activity: ActivityView::Idle,
                    watch: cleared(),
                    status: FlipbookStatus::Busy,
                    queue: seq![b],
                    ..s0
                },
                now,
            );
        },
        _ => {},
    }
}

/// A tick keeps the driver's invariant.
pub proof fn lemma_tick_keeps_wf(s: FlipbookView, now: u64)
    requires
        wf(s),
    ensures
        wf(after_tick(s, now)),
{
    match s.activity {
        ActivityView::Delaying { until } => {
            if now >= until {
                lemma_evaluate_settles(FlipbookView { activity: ActivityView::Idle, ..s }, now);
            }
        },
        ActivityView::Animating(t) => {
            lemma_evaluate_settles(
                FlipbookView {
                    activity: ActivityView::Idle,
                    rect: Some(t.to),
                    watch: cleared(),
                    ..s
                },
                now,
            );
        },
        _ => {},
    }
}

/// A pure delay moves nothing. Taken from the queue, it leaves the rectangle
/// as it was and waits `duration` milliseconds; until then a tick changes nothing.
pub proof fn lemma_delay_moves_nothing(s: FlipbookView, now: u64, later: u64)
    requires
        s.activity is Idle,
        s.queue.len() > 0,
        s.queue[0].to is None,
    ensures
        ({
            let e = evaluate(s, now);
            let until = saturating_sum(now as int, s.queue[0].duration as int);
            &&& e.rect == s.rect
            &&& e.queue == s.queue.drop_first()
            &&& e.activity == (ActivityView::Delaying { until })
            &&& later < until ==> after_tick(e, later) == e
        }),
{
}

/// Pausing at `paused` and resuming at `resumed` freezes a running transition:
/// its rectangle and progress stay, the stopwatch keeps the time it had at the
/// pause, and a tick at `now` sees that time plus only what ran since the resume.
pub proof fn lemma_pause_resume(s: FlipbookView, paused: u64, resumed: u64, now: u64)
    requires
        wf(s),
        s.activity is Animating,
    ensures
        ({
            let p = after_command(FlipbookView { command: FlipbookCommand::Pause, ..s }, paused);
            let r = after_command(FlipbookView { command: FlipbookCommand::Resume, ..p }, resumed);
            &&& p.activity == ActivityView::Paused(s.activity->Animating_0)
            &&& r.activity == s.activity
            &&& r.rect == s.rect
            &&& r.queue == s.queue
            &&& r.watch == (StopwatchView { lap_start: Some(resumed), elapsed: lap_closed(s.watch, paused) })
            &&& lap_closed(r.watch, now) == saturating_sum(
                lap_closed(s.watch, paused) as int,
                crate::stopwatch::lap_length(resumed, now) as int,
            )
        }),
{
}

/// Ticks follow running time on any schedule: after a tick at `n1` that leaves the
/// transition running, the stopwatch shows at any later `n2` what it would have
/// shown without that tick, and the queue, status and transition's course stay.
pub proof fn lemma_tick_keeps_running_time(s: FlipbookView, n1: u64, n2: u64)
    requires
        wf(s),
        s.activity is Animating,
        s.watch.lap_start->Some_0 <= n1 <= n2,
        s.watch.elapsed + (n2 - s.watch.lap_start->Some_0) <= u64::MAX,
    ensures
        ({
            let t = s.activity->Animating_0;
            let a = after_tick(s, n1);
            !finished(stepped(t, lap_closed(s.watch, n1))) ==> {
                &&& a.queue == s.queue
                &&& a.status == FlipbookStatus::Busy
                &&& a.activity == ActivityView::Animating(stepped(t, lap_closed(s.watch, n1)))
                &&& lap_closed(a.watch, n2) == lap_closed(s.watch, n2)
            }
        }),
{
}

/// While paused, ticks change nothing.
pub proof fn lemma_paused_tick_is_still(s: FlipbookView, now: u64)
    requires
        s.activity is Paused,
    ensures
        after_tick(s, now) == s,
{
}

/// A command to queue, given to a driver that is running something, only appends
/// to the queue: the running transition or delay, the rectangle and the status stay.
pub proof fn lemma_queue_while_busy(s: FlipbookView, b: AnimationBuilder, now: u64)
    requires
        wf(s),
        !(s.activity is Idle),
    ensures
        after_command(FlipbookView { command: FlipbookCommand::Queue(b), ..s }, now)
            == (FlipbookView { queue: s.queue.push(b), command: FlipbookCommand::NoCommand, ..s }),
{
}

/// When a transition finishes and the next request moves somewhere else, the next
/// transition starts at once, from that request's `from` or else from where the
/// finished one ended, and the driver stays busy.
pub proof fn lemma_finish_hands_over(s: FlipbookView, now: u64)
    requires
        wf(s),
        s.activity is Animating,
        finished(stepped(s.activity->Animating_0, lap_closed(s.watch, now))),
        s.queue.len() > 0,
        s.queue[0].to is Some,
        s.queue[0].from is Some || s.queue[0].to != Some(s.activity->Animating_0.to),
    ensures
        ({
            let t = s.activity->Animating_0;
            let b = s.queue[0];
            let from = match b.from {
                Some(f) => f,
                None => t.to,
            };
            let a = after_tick(s, now);
            &&& a.activity == ActivityView::Animating(transition_of(b, from, b.to->Some_0))
            &&& a.rect == Some(from)
            &&& a.queue == s.queue.drop_first()
            &&& a.status == FlipbookStatus::Busy
        }),
{
}

/// When the last transition finishes, the driver leaves its end rectangle and rests.
pub proof fn lemma_last_finish_rests(s: FlipbookView, now: u64)
    requires
        wf(s),
        s.activity is Animating,
        finished(stepped(s.activity->Animating_0, lap_closed(s.watch, now))),
        s.queue.len() == 0,
    ensures
        ({
            let a = after_tick(s, now);
            &&& a.rect == Some(s.activity->Animating_0.to)
            &&& a.activity is Idle
            &&& a.status == FlipbookStatus::Resting
        }),
{
}

/// A delay that is over gives way to the queue at the first tick at or after its
/// end, with the rectangle as it was.
pub proof fn lemma_delay_ends(s: FlipbookView, now: u64)
    requires
        wf(s),
        s.activity == (ActivityView::Delaying { until: s.activity->until }),
        now >= s.activity->until,
    ensures
        after_tick(s, now) == evaluate(FlipbookView { activity: ActivityView::Idle, ..s }, now),
        s.queue.len() == 0 ==> after_tick(s, now).rect == s.rect && after_tick(s, now).status
            == FlipbookStatus::Resting,
{
}

/// The driver after ticks at each of `times`, in order.
pub open spec fn after_ticks(s: FlipbookView, times: Seq<u64>) -> FlipbookView
    decreases times.len(),
{
    if times.len() == 0 {
        s
    } else {
        after_ticks(after_tick(s, times[0]), times.drop_first())
    }
}

/// Over any run of ticks the invariant holds after each: in particular the driver
/// is busy exactly while it runs something, hand-overs between queued requests
/// included, and rests only once nothing is left.
pub proof fn lemma_ticks_keep_wf(s: FlipbookView, times: Seq<u64>)
    requires
        wf(s),
    ensures
        wf(after_ticks(s, times)),
    decreases times.len(),
{
    if times.len() > 0 {
        lemma_tick_keeps_wf(s, times[0]);
        lemma_ticks_keep_wf(after_tick(s, times[0]), times.drop_first());
    }
}

/// However often a running transition is ticked, at times in order, it follows
/// only the running time of its stopwatch: before the duration has run it keeps
/// running, the queue waits, and at any later `now` the stopwatch shows what it
/// would have shown with no ticks at all.
pub proof fn lemma_ticks_follow_running_time(s: FlipbookView, times: Seq<u64>, now: u64)
    requires
        wf(s),
        s.activity is Animating,
        s.watch.lap_start->Some_0 <= now,
        forall|i: int| 0 <= i < times.len() ==> s.watch.lap_start->Some_0 <= #[trigger] times[i] <= now,
        forall|i: int, j: int| 0 <= i < j < times.len() ==> times[i] <= times[j],
        s.watch.elapsed + (now - s.watch.lap_start->Some_0) < s.activity->Animating_0.duration,
    ensures
        ({
            let a = after_ticks(s, times);
            let t = s.activity->Animating_0;
            &&& a.activity is Animating
            &&& a.activity->Animating_0 == TransitionView { progress: a.activity->Animating_0.progress, ..t }
            &&& a.queue == s.queue
            &&& a.status == FlipbookStatus::Busy
            &&& a.watch.lap_start is Some
            &&& a.watch.lap_start->Some_0 <= now
            &&& lap_closed(a.watch, now) == lap_closed(s.watch, now)
        }),
    decreases times.len(),
{
    if times.len() > 0 {
        let t = s.activity->Animating_0;
        let n1 = times[0];
        let e1 = lap_closed(s.watch, n1);
        crate::animation::lemma_unfinished_before_duration(t, e1);
        lemma_tick_keeps_running_time(s, n1, now);
        lemma_tick_keeps_wf(s, n1);
        let s1 = after_tick(s, n1);
        assert(s1.activity == ActivityView::Animating(stepped(t, e1)));
        assert(s1.watch == lapped(s.watch, n1));
        assert(s1.watch.elapsed == e1);
        let rest = times.drop_first();
        assert forall|i: int| 0 <= i < rest.len() implies s1.watch.lap_start->Some_0 <= #[trigger] rest[i] <= now by {
            assert(rest[i] == times[i + 1]);
        }
        assert forall|i: int, j: int| 0 <= i < j < rest.len() implies rest[i] <= rest[j] by {
            assert(rest[i] == times[i + 1] && rest[j] == times[j + 1]);
        }
        lemma_ticks_follow_running_time(s1, rest, now);
    }
}

#[derive(Clone, Copy, Debug, PartialEq, Eq)]
enum Activity {
    Idle,
    Delaying { until: u64 },
    Animating(AnimationTransition),
    Paused(AnimationTransition),
}

#[derive(Clone, Debug, PartialEq)]
pub struct UseFlipbook {
    current_rect: Option<Rect>,
    status: FlipbookStatus,
    command: FlipbookCommand,
    queue: AnimationQueue,
    activity: Activity,
    stopwatch: Stopwatch,
    rejected: Option<AnimationBuilder>,
}

impl View for UseFlipbook {
    type V = FlipbookView;

    closed spec fn view(&self) -> FlipbookView {
        FlipbookView {
            rect: self.current_rect,
            status: self.status,
            command: self.command,
            queue: self.queue@,
            activity: match self.activity {
                Activity::Idle => ActivityView::Idle,
                Activity::Delaying { until } => ActivityView::Delaying { until },
                Activity::Animating(t) => ActivityView::Animating(t@),
                Activity::Paused(t) => ActivityView::Paused(t@),
            },
            watch: self.stopwatch@,
            rejected: self.rejected,
        }
    }
}

impl UseFlipbook {
    /// A resting driver with no rectangle and nothing queued.
    pub fn new() -> (r: UseFlipbook)
        ensures
            r@ == initial(),
            wf(r@),
    {
        UseFlipbook {
            current_rect: None,
            status: FlipbookStatus::Resting,
            command: FlipbookCommand::NoCommand,
            queue: AnimationQueue::new(),
            activity: Activity::Idle,
            stopwatch: Stopwatch::new(),
            rejected: None,
        }
    }

    pub fn peek_rect(&self) -> (r: Option<Rect>)
        ensures
            r == self@.rect,
    {
        self.current_rect
    }

    pub fn read_rect(&self) -> (r: Option<Rect>)
        ensures
            r == self@.rect,
    {
        self.current_rect
    }

    /// The element's style: relative until a rectangle is known, then its size and
    /// position.
    pub fn read_render_state(&self) -> (r: String)
        ensures
            r@ == match self@.rect {
                Some(rect) => placement(rect.x as int, rect.y as int, rect.width as int, rect.height as int),
                None => relative_position(),
            },
    {
        match self.current_rect {
            Some(rect) => placement_css(rect.x, rect.y, rect.width, rect.height),
            None => {
                proof { reveal_strlit("position: relative;"); }
                String::from_str("position: relative;")
            },
        }
    }

    pub fn peek_status(&self) -> (r: FlipbookStatus)
        ensures
            r == self@.status,
    {
        self.status
    }

    pub fn read_status(&self) -> (r: FlipbookStatus)
        ensures
            r == self@.status,
    {
        self.status
    }

    pub fn peek_is_finished(&self) -> (r: bool)
        ensures
            r == (self@.status == FlipbookStatus::Resting),
    {
        self.status == FlipbookStatus::Resting
    }

    pub fn read_is_finished(&self) -> (r: bool)
        ensures
            r == (self@.status == FlipbookStatus::Resting),
    {
        self.status == FlipbookStatus::Resting
    }

    pub fn set_rect(&mut self, rect: Rect)
        ensures
            final(self)@ == (FlipbookView { command: FlipbookCommand::SetRect(rect), ..old(self)@ }),
    {
        self.command = FlipbookCommand::SetRect(rect);
    }

    pub fn queue(&mut self, anim: AnimationBuilder)
        ensures
            final(self)@ == (FlipbookView { command: FlipbookCommand::Queue(anim), ..old(self)@ }),
    {
        self.command = FlipbookCommand::Queue(anim);
    }

    pub fn play_now(&mut self, anim: AnimationBuilder)
        ensures
            final(self)@ == (FlipbookView { command: FlipbookCommand::PlayNow(anim), ..old(self)@ }),
    {
        self.command = FlipbookCommand::PlayNow(anim);
    }

    pub fn resume(&mut self)
        ensures
            final(self)@ == (FlipbookView { command: FlipbookCommand::Resume, ..old(self)@ }),
    {
        self.command = FlipbookCommand::Resume;
    }

    pub fn pause(&mut self)
        ensures
            final(self)@ == (FlipbookView { command: FlipbookCommand::Pause, ..old(self)@ }),
    {
        self.command = FlipbookCommand::Pause;
    }

    pub fn drop_all(&mut self)
        ensures
            final(self)@ == (FlipbookView { command: FlipbookCommand::DropAll, ..old(self)@ }),
    {
        self.command = FlipbookCommand::DropAll;
    }

    pub fn get_command(&self) -> (r: FlipbookCommand)
        ensures
            r == self@.command,
    {
        self.command
    }

    /// The last request dropped because it would start where it ends, if any
    /// since the last call; the record is cleared.
    pub fn take_rejected(&mut self) -> (r: Option<AnimationBuilder>)
        ensures
            r == old(self)@.rejected,
            final(self)@ == (FlipbookView { rejected: None, ..old(self)@ }),
    {
        let r = self.rejected;
        self.rejected = None;
        r
    }

    fn is_idle(&self) -> (r: bool)
        ensures
            r == (self@.activity is Idle),
    {
        match self.activity {
            Activity::Idle => true,
            _ => false,
        }
    }

    fn start_transition(&mut self, builder: AnimationBuilder, from: Rect, to: Rect, now: u64)
        ensures
            final(self)@ == started(old(self)@, builder, from, to, now),
    {
        let transition = AnimationTransition::new(builder, from, to);
        self.status = FlipbookStatus::Busy;
        self.stopwatch.clear();
        self.stopwatch.start(now);
        self.current_rect = Some(from);
        self.activity = Activity::Animating(transition);
    }

    /// Cancels whatever runs and clears the stopwatch.
    fn clear_task(&mut self)
        ensures
            final(self)@ == (FlipbookView { activity: ActivityView::Idle, watch: cleared(), ..old(self)@ }),
    {
        self.activity = Activity::Idle;
        self.stopwatch.clear();
    }

    fn evaluate_queue(&mut self, now: u64)
        ensures
            final(self)@ == evaluate(old(self)@, now),
    {
        let ghost goal = evaluate(self@, now);
        while self.is_idle() && !self.queue.is_empty()
            invariant
                evaluate(self@, now) == goal,
            decreases self@.queue.len(),
        {
            let ghost before = self@;
            let next = self.queue.pop_front();
            if let Some(builder) = next {
                assert(builder == before.queue[0]);
                match builder.to {
                    None => {
                        self.activity = Activity::Delaying { until: now.saturating_add(builder.duration) };
                        self.status = FlipbookStatus::Busy;
                    },
                    Some(to) => match builder.from {
                        Some(from) => self.start_transition(builder, from, to, now),
                        None => match self.current_rect {
                            Some(from) => {
                                if from != to {
                                    self.start_transition(builder, from, to, now);
                                } else {
                                    self.rejected = Some(builder);
                                }
                            },
                            None => {},
                        },
                    },
                }
            }
        }
        if self.is_idle() {
            self.status = FlipbookStatus::Resting;
        }
    }

    /// Processes the pending command at `now`, as [`after_command`] describes.
    pub fn process_command(&mut self, now: u64)
        ensures
            final(self)@ == after_command(old(self)@, now),
    {
        let command = self.command;
        match command {
            FlipbookCommand::Resume => {
                if let Activity::Paused(t) = self.activity {
                    self.activity = Activity::Animating(t);
                    self.stopwatch.start(now);
                }
                self.command = FlipbookCommand::NoCommand;
            },
            FlipbookCommand::Pause => {
                if let Activity::Animating(t) = self.activity {
                    self.stopwatch.stop(now);
                    self.activity = Activity::Paused(t);
                }
                self.command = FlipbookCommand::NoCommand;
            },
            FlipbookCommand::DropAll => {
                self.clear_task();
                self.queue.drop_all();
                self.command = FlipbookCommand::NoCommand;
                self.status = FlipbookStatus::Resting;
            },
            FlipbookCommand::Queue(anim) => {
                self.queue.push(anim);
                self.command = FlipbookCommand::NoCommand;
                self.evaluate_queue(now);
            },
            FlipbookCommand::PlayNow(anim) => {
                self.clear_task();
                self.status = FlipbookStatus::Busy;
                self.queue.play_now(anim);
                self.command = FlipbookCommand::NoCommand;
                self.evaluate_queue(now);
            },
            FlipbookCommand::SetRect(rect) => {
                if self.is_idle() {
                    self.current_rect = Some(rect);
                }
                self.command = FlipbookCommand::NoCommand;
            },
            FlipbookCommand::NoCommand => {},
        }
    }

    /// Advances the driver at `now`, as [`after_tick`] describes, and says when
    /// to call again.
    pub fn tick(&mut self, now: u64) -> (r: Wake)
        ensures
            final(self)@ == after_tick(old(self)@, now),
            r == wake_of(final(self)@, now),
    {
        match self.activity {
            Activity::Delaying { until } => {
                if now >= until {
                    self.activity = Activity::Idle;
                    self.evaluate_queue(now);
                }
            },
            Activity::Animating(t) => {
                let mut transition = t;
                let elapsed = self.stopwatch.get_elapsed(now);
                let rect = transition.step(elapsed);
                if transition.is_finished() {
                    self.current_rect = Some(transition.end_rect());
                    self.clear_task();
                    self.evaluate_queue(now);
                } else {
                    self.current_rect = Some(rect);
                    self.activity = Activity::Animating(transition);
                }
            },
            _ => {},
        }
        match self.activity {
            Activity::Delaying { until } => Wake::At(until),
            Activity::Animating(t) => Wake::At(now.saturating_add(t.min_frame_duration())),
            _ => Wake::OnCommand,
        }
    }
}

} // verus!
