//! Helpers around the access guard.

use crate::clock::{local_hour, nanos_since, MAX_ELAPSED_NANOS, NANOS_PER_SECOND};
use vstd::prelude::*;

verus! {

/// What a rate limiter holds: the times of the requests it still counts, in
/// nanoseconds on its own clock, the most it admits within a window, and the
/// window's length in nanoseconds.
pub struct RateState {
    pub requests: Seq<nat>,
    pub max_requests: nat,
    pub window: nat,
}

impl RateState {
    /// The requests that are no older than the window at `now`.
    pub open spec fn recent(self, now: nat) -> Seq<nat> {
        let window = self.window;
        self.requests.filter(|t: nat| now - t <= window)
    }

    /// A request at `now` is admitted where fewer than the maximum are recent.
    pub open spec fn admits(self, now: nat) -> bool {
        self.recent(now).len() < self.max_requests
    }

    /// The state after a request at `now`: old requests are forgotten, and
    /// the new one is counted if it was admitted.
    pub open spec fn after_request(self, now: nat) -> RateState {
        RateState {
            requests: if self.admits(now) {
                self.recent(now).push(now)
            } else {
                self.recent(now)
            },
            ..self
        }
    }
}

/// Admits at most a number of requests within a sliding window.
#[derive(Debug)]
pub struct RateLimiter {
    origin: std::time::Instant,
    requests: Vec<u128>,
    max_requests: usize,
    window: u128,
}

impl View for RateLimiter {
    type V = RateState;

    closed spec fn view(&self) -> RateState {
        RateState {
            requests: self.requests@.map_values(|t: u128| t as nat),
            max_requests: self.max_requests as nat,
            window: self.window as nat,
        }
    }
}

impl RateLimiter {
    /// A limiter that has seen no request yet.
    pub fn new(max_requests: usize, window_seconds: u64) -> (limiter: Self)
        ensures
            limiter@.requests == Seq::<nat>::empty(),
            limiter@.max_requests == max_requests,
            limiter@.window == window_seconds * 1_000_000_000,
    {
        let limiter = Self {
            origin: std::time::Instant::now(),
            requests: Vec::new(),
            max_requests,
            window: (window_seconds as u128) * NANOS_PER_SECOND,
        };
        assert(limiter@.requests =~= Seq::<nat>::empty());
        limiter
    }

    /// Counts a request made now, and tells whether it is admitted.
    pub fn check_rate_limit(&mut self) -> (allowed: bool)
        ensures
            exists|now: nat|
                {
                    &&& now <= MAX_ELAPSED_NANOS
                    &&& allowed == #[trigger] old(self)@.admits(now)
                    &&& final(self)@ == old(self)@.after_request(now)
                },
    {
        let now = nanos_since(&self.origin);
        let allowed = self.check_rate_limit_at(now);
        assert(allowed == old(self)@.admits(now as nat));
        allowed
    }

    /// Counts a request made at `now`, in nanoseconds on the limiter's clock,
    /// and tells whether it is admitted.
    pub fn check_rate_limit_at(&mut self, now: u128) -> (allowed: bool)
        ensures
            allowed == old(self)@.admits(now as nat),
            final(self)@ == old(self)@.after_request(now as nat),
    {
        let ghost window = self.window as nat;
        let ghost keep = |t: nat| (now as nat) - t <= window;
        let ghost before = self.requests@.map_values(|t: u128| t as nat);
        let mut kept: Vec<u128> = Vec::new();
        let mut i: usize = 0;
        assert(before.subrange(0, 0).filter(keep) =~= Seq::<nat>::empty()) by {
            reveal(Seq::filter);
        }
        while i < self.requests.len()
            invariant
                i <= self.requests@.len(),
                window == self.window as nat,
                keep == (|t: nat| (now as nat) - t <= window),
                before == self.requests@.map_values(|t: u128| t as nat),
                kept@.map_values(|t: u128| t as nat) == before.subrange(0, i as int).filter(keep),
            decreases self.requests@.len() - i,
        {
            let t: u128 = self.requests[i];
            proof {
                let prefix = before.subrange(0, i as int);
                assert(before.subrange(0, i + 1) =~= prefix.push(t as nat));
                prefix.lemma_filter_push(t as nat, keep);
            }
            if now <= t || now - t <= self.window {
                kept.push(t);
                assert(kept@.map_values(|t: u128| t as nat) =~= before.subrange(0, i + 1).filter(
                    keep,
                ));
            }
            i = i + 1;
        }
        assert(before.subrange(0, i as int) =~= before);
        let allowed = kept.len() < self.max_requests;
        if allowed {
            kept.push(now);
        }
        self.requests = kept;
        proof {
            let recent = old(self)@.recent(now as nat);
            assert(recent == before.filter(keep));
            if allowed {
                assert(self@.requests =~= recent.push(now as nat));
            } else {
                assert(self@.requests =~= recent);
            }
        }
        allowed
    }
}

/// Business hours are from 9 up to and including 17.
pub open spec fn business_hour(hour: u32) -> bool {
    9 <= hour <= 17
}

/// Tells whether an hour of the day, 0 to 23, lies within business hours.
pub fn is_business_hour(hour: u32) -> (within: bool)
    ensures
        within == business_hour(hour),
{
    hour >= 9 && hour <= 17
}

/// Tells whether the local time is within business hours.
pub fn is_business_hours() -> (within: bool)
    ensures
        exists|hour: u32| hour <= 23 && within == #[trigger] business_hour(hour),
{
    let hour = local_hour();
    is_business_hour(hour)
}

} // verus!
