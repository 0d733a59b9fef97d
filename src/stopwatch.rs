//! A stopwatch that accumulates running time across start and stop.
use vstd::prelude::*;

verus! {

/// What a stopwatch holds: the start of the open lap, if it runs, and the time
/// accumulated by closed laps, in milliseconds.
pub struct StopwatchView {
    pub lap_start: Option<u64>,
    pub elapsed: u64,
}

/// The length of a lap from `start` to `now`; a clock that went back gives none.
pub open spec fn lap_length(start: u64, now: u64) -> int {
    if now >= start {
        now - start
    } else {
        0
    }
}

/// `a + b`, held to the range of `u64`.
pub open spec fn saturating_sum(a: int, b: int) -> u64 {
    if a + b > u64::MAX {
        u64::MAX
    } else {
        (a + b) as u64
    }
}

/// The open lap, if any, closed at `now` into the accumulated time.
pub open spec fn lap_closed(w: StopwatchView, now: u64) -> u64 {
    match w.lap_start {
        Some(start) => saturating_sum(w.elapsed as int, lap_length(start, now)),
        None => w.elapsed,
    }
}

/// The stopwatch at `now` after a read: the lap closed and, if it ran, a new one open.
pub open spec fn lapped(w: StopwatchView, now: u64) -> StopwatchView {
    StopwatchView {
        lap_start: match w.lap_start {
            Some(_) => Some(now),
            None => None,
        },
        elapsed: lap_closed(w, now),
    }
}

/// The stopwatch stopped at `now`: the lap closed and none open.
pub open spec fn stopped(w: StopwatchView, now: u64) -> StopwatchView {
    StopwatchView { lap_start: None, elapsed: lap_closed(w, now) }
}

/// A stopwatch that is not running and holds no time.
pub open spec fn cleared() -> StopwatchView {
    StopwatchView { lap_start: None, elapsed: 0 }
}

#[derive(Clone, Copy, Debug, PartialEq, Eq)]
pub struct Stopwatch {
    lap_start: Option<u64>,
    elapsed: u64,
}

impl View for Stopwatch {
    type V = StopwatchView;

    closed spec fn view(&self) -> StopwatchView {
        StopwatchView { lap_start: self.lap_start, elapsed: self.elapsed }
    }
}

impl Stopwatch {
    pub fn new() -> (r: Stopwatch)
        ensures
            r@ == cleared(),
    {
        Stopwatch { lap_start: None, elapsed: 0 }
    }

    /// Stops at `now`, keeping the time of the lap that was open.
    pub fn stop(&mut self, now: u64)
        ensures
            final(self)@ == stopped(old(self)@, now),
    {
        self.lap(now);
        self.lap_start = None;
    }

    /// Opens a lap at `now`; the accumulated time stays.
    pub fn start(&mut self, now: u64)
        ensures
            final(self)@ == (StopwatchView { lap_start: Some(now), elapsed: old(self)@.elapsed }),
    {
        self.lap_start = Some(now);
    }

    fn lap(&mut self, now: u64)
        ensures
            final(self)@ == lapped(old(self)@, now),
    {
        if let Some(start) = self.lap_start {
            let length: u64 = if now >= start { now - start } else { 0 };
            self.elapsed = self.elapsed.saturating_add(length);
            self.lap_start = Some(now);
        }
    }

    /// The running time at `now`. A running stopwatch closes its lap and opens
    /// the next, so that reading it every frame loses nothing.
    pub fn get_elapsed(&mut self, now: u64) -> (r: u64)
        ensures
            r == lap_closed(old(self)@, now),
            final(self)@ == lapped(old(self)@, now),
    {
        self.lap(now);
        self.elapsed
    }

    /// Stops and forgets the accumulated time.
    pub fn clear(&mut self)
        ensures
            final(self)@ == cleared(),
    {
        self.lap_start = None;
        self.elapsed = 0;
    }
}

/// While stopped, a stopwatch keeps its time: stopping at `paused`, starting again
/// at `resumed` and reading at `now` gives the time it had when stopped, plus the
/// time since it was started again.
pub proof fn lemma_pause_keeps_elapsed(w: StopwatchView, paused: u64, resumed: u64, now: u64)
    requires
        w.lap_start is Some,
    ensures
        ({
            let at_pause = stopped(w, paused);
            let again = StopwatchView { lap_start: Some(resumed), elapsed: at_pause.elapsed };
            &&& at_pause.elapsed == lap_closed(w, paused)
            &&& lap_closed(again, now) == saturating_sum(lap_closed(w, paused) as int, lap_length(resumed, now))
            &&& lap_closed(at_pause, now) == lap_closed(w, paused)
        }),
{
}

} // verus!
