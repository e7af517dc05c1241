use vstd::prelude::*;

verus! {

/// What the periodic task of one blob is told.
#[derive(Clone, Copy, Debug, PartialEq, Eq, Structural)]
pub enum Event {
    /// The timer of the task fired.
    TimerFired,
    /// The scene is shutting down.
    Shutdown,
}

/// What the periodic task of one blob does next.
#[derive(Clone, Copy, Debug, PartialEq, Eq, Structural)]
pub enum Action {
    /// Advance the blob by one tick of `dt_millis` milliseconds, then redraw it.
    Advance { dt_millis: u64 },
    /// Leave the loop; the blob is not advanced again.
    Stop,
}

/// The decisions of the periodic task that drives one blob: one tick per firing of a
/// fixed-interval timer until the scene shuts down.
#[derive(Clone, Copy, Debug, PartialEq, Eq, Structural)]
pub struct Ticker {
    pub interval_millis: u64,
    pub running: bool,
}

impl Ticker {
    /// A running ticker whose timer fires every `interval_millis` milliseconds.
    pub fn new(interval_millis: u64) -> (r: Ticker)
        ensures
            r.interval_millis == interval_millis,
            r.running,
    {
        Ticker { interval_millis, running: true }
    }

    /// The action for `e`. While running, each firing of the timer advances the blob by
    /// one interval; a shutdown stops it for good, and a stopped ticker only stops.
    pub fn on_event(&mut self, e: Event) -> (a: Action)
        ensures
            final(self).interval_millis == old(self).interval_millis,
            final(self).running == (old(self).running && e == Event::TimerFired),
            a == (if final(self).running {
                Action::Advance { dt_millis: old(self).interval_millis }
            } else {
                Action::Stop
            }),
    {
        match e {
            Event::TimerFired => {
                if self.running {
                    Action::Advance { dt_millis: self.interval_millis }
                } else {
                    Action::Stop
                }
            },
            Event::Shutdown => {
                self.running = false;
                Action::Stop
            },
        }
    }
}

} // verus!
