//! Debouncing of file-system change events, so that a burst of changes
//! starts the processing once.
use vstd::prelude::*;

verus! {

/// Times are in nanoseconds since a fixed instant.
pub struct Debouncer {
    /// The quiet time that must pass between two runs.
    pub window: u128,
    /// When processing last started (or watching began).
    pub last_run: u128,
}

impl Debouncer {
    /// Whether a change seen at `now` starts processing: more than the
    /// window has passed since the last run (no time passes when `now` is
    /// not after it).
    pub open spec fn fires(self, now: u128) -> bool {
        now > self.last_run && now - self.last_run > self.window
    }

    /// A debouncer with the given window, watching since `start`.
    pub fn new(window: u128, start: u128) -> (r: Self)
        ensures
            r.window == window,
            r.last_run == start,
    {
        Debouncer { window, last_run: start }
    }

    /// Handles a change seen at `now`: whether to process, and if so the
    /// run is recorded as starting at `now`.
    pub fn on_change(&mut self, now: u128) -> (run: bool)
        ensures
            run == old(self).fires(now),
            final(self).window == old(self).window,
            final(self).last_run == if run {
                now
            } else {
                old(self).last_run
            },
    {
        if now > self.last_run && now - self.last_run > self.window {
            self.last_run = now;
            true
        } else {
            false
        }
    }
}

} // verus!
