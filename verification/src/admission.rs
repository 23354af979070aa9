//! Admission control for the accept loop: a connection attempt is dropped
//! while the live-session count stands at the configured maximum, or when
//! the global accept-rate limiter says so; only then is a session ever
//! constructed.

use vstd::prelude::*;
use crate::rate_limit::RateLimiter;

verus! {

/// The decision on one incoming connection attempt.
#[derive(Debug, Clone, Copy, PartialEq, Eq, Structural)]
pub enum Admission {
    /// Accept the connection and build a session.
    Accept,
    /// Drop it: every session slot is taken. The rate limiter is not
    /// consulted, so the attempt does not count against the window.
    Full,
    /// Drop it: the accept-rate limiter reported limited.
    RateLimited,
}

/// The admission decision and the accept-rate limiter state after it.
pub open spec fn admission_spec(live: u32, max_devices: u32, limiter: RateLimiter, now: u64) -> (
    Admission,
    RateLimiter,
) {
    if live == max_devices {
        (Admission::Full, limiter)
    } else {
        let (next, limited) = limiter.hit_outcome(now);
        if limited {
            (Admission::RateLimited, next)
        } else {
            (Admission::Accept, next)
        }
    }
}

/// Decide one connection attempt, counting it against the accept-rate
/// window unless the server is already full.
pub fn admission_decision(live: u32, max_devices: u32, limiter: &mut RateLimiter, now: u64) -> (r:
    Admission)
    ensures
        (r, *final(limiter)) == admission_spec(live, max_devices, *old(limiter), now),
{
    if live == max_devices {
        return Admission::Full;
    }
    if limiter.hit(now) {
        Admission::RateLimited
    } else {
        Admission::Accept
    }
}

/// With every slot taken, a connection attempt never becomes a session —
/// it is dropped before any handshake, and the limiter is untouched.
pub proof fn lemma_admission_full(live: u32, max_devices: u32, limiter: RateLimiter, now: u64)
    requires
        live == max_devices,
    ensures
        admission_spec(live, max_devices, limiter, now) == (Admission::Full, limiter),
{
}

} // verus!
