//! The pacer that lets one tick through per interval of real time.

use vstd::prelude::*;

verus! {

/// The time between two ticks, in milliseconds.
pub const TICK_MILLIS: u64 = 100;

/// Remembers when the last tick was let through. Times are milliseconds on
/// any clock that does not run backwards.
#[derive(Clone, Copy, Debug, PartialEq, Eq, Structural)]
pub struct Pacer {
    pub last: u64,
    pub interval: u64,
}

/// Whether a tick is due at `now`: at least `interval` has passed since `last`.
pub open spec fn is_due(last: u64, interval: u64, now: u64) -> bool {
    now - last >= interval
}

impl Pacer {
    /// A pacer that counts from `now` and lets a tick through every
    /// `TICK_MILLIS`.
    pub fn new(now: u64) -> (pacer: Pacer)
        ensures
            pacer == (Pacer { last: now, interval: TICK_MILLIS }),
    {
        Pacer { last: now, interval: TICK_MILLIS }
    }

    /// Tells whether a tick is due at `now`, and if so counts from `now` on.
    pub fn poll(&mut self, now: u64) -> (due: bool)
        ensures
            due == is_due(old(self).last, old(self).interval, now),
            final(self).interval == old(self).interval,
            final(self).last == (if due {
                now
            } else {
                old(self).last
            }),
    {
        if now >= self.last && now - self.last >= self.interval {
            self.last = now;
            true
        } else {
            false
        }
    }
}

} // verus!
