//! A fixed-window rate limiter: a hit counter that resets whenever the
//! configured time frame has elapsed since the window started. Time is
//! passed in by the caller as a monotonic tick count, so the policy itself
//! is fully specified.

use vstd::prelude::*;

verus! {

pub struct RateLimiter {
    pub time_frame: u64,
    pub time: u64,
    pub max_hits: usize,
    pub hits: usize,
}

impl RateLimiter {
    /// Whether the current window has ended at instant `now`.
    pub open spec fn window_expired(self, now: u64) -> bool {
        now >= self.time + self.time_frame
    }

    /// The limiter state and answer after one `hit` at instant `now`: if
    /// the window has elapsed, the count and window start reset first; a
    /// hit at the maximum count reports limited and does not count,
    /// otherwise the hit is counted and admitted.
    pub open spec fn hit_outcome(self, now: u64) -> (RateLimiter, bool) {
        let base = if self.window_expired(now) {
            RateLimiter { time: now, hits: 0, ..self }
        } else {
            self
        };
        if base.hits >= base.max_hits {
            (base, true)
        } else {
            (RateLimiter { hits: (base.hits + 1) as usize, ..base }, false)
        }
    }

    pub fn new(time_frame: u64, max_hits: usize, now: u64) -> (r: Self)
        ensures
            r == (RateLimiter { time_frame, time: now, max_hits, hits: 0 }),
    {
        RateLimiter { time_frame, time: now, max_hits, hits: 0 }
    }

    /// Count one event at instant `now`; returns whether the event exceeds
    /// the limit ("limited").
    pub fn hit(&mut self, now: u64) -> (limited: bool)
        ensures
            (*final(self), limited) == old(self).hit_outcome(now),
    {
        if now >= self.time && now - self.time >= self.time_frame {
            self.hits = 0;
            self.time = now;
        }
        if self.hits >= self.max_hits {
            return true;
        }
        self.hits = self.hits + 1;
        false
    }

    /// The number of hits counted in the current window.
    pub fn current_hits(&self) -> (r: usize)
        ensures
            r == self.hits,
    {
        self.hits
    }
}

} // verus!
