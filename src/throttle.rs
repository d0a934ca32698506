//! Pacing of fetches: at least an interval between one and the next.
use vstd::prelude::*;

verus! {

/// Milliseconds between fetches where no interval is given.
pub const DEFAULT_INTERVAL_MS: u64 = 1000;

/// Keeps successive fetches at least `interval` milliseconds apart, by a
/// clock that the caller reads.
pub struct Throttler {
    pub last: Option<u64>,
    pub interval: u64,
}

impl Throttler {
    /// A throttler that has not ticked yet.
    pub fn new(interval: Option<u64>) -> (r: Throttler)
        ensures
            r.last is None,
            r.interval == match interval {
                Some(i) => i,
                None => DEFAULT_INTERVAL_MS,
            },
    {
        let interval = match interval {
            Some(i) => i,
            None => DEFAULT_INTERVAL_MS,
        };
        Throttler { last: None, interval }
    }

    /// How long to wait at `now` before the next fetch: nothing before the
    /// first tick, else what is left of the interval since the last one.
    pub fn delay(&self, now: u64) -> (r: u64)
        ensures
            match self.last {
                None => r == 0,
                Some(l) => {
                    let elapsed = if now >= l { now - l } else { 0 };
                    r == if elapsed < self.interval { self.interval - elapsed } else { 0 }
                },
            },
    {
        match self.last {
            None => 0,
            Some(l) => {
                let elapsed = if now >= l {
                    now - l
                } else {
                    0
                };
                if elapsed < self.interval {
                    self.interval - elapsed
                } else {
                    0
                }
            },
        }
    }

    /// Records `now` as the time of the latest fetch.
    pub fn tick(&mut self, now: u64)
        ensures
            final(self).last == Some(now),
            final(self).interval == old(self).interval,
    {
        self.last = Some(now);
    }
}

} // verus!
