//! Per-service request budgets over a minute, an hour and a day.
use vstd::prelude::*;

verus! {

/// Relies on `std::time::SystemTime::now`: seconds since the Unix epoch, 0
/// for a clock set before it. Nothing is promised of the clock.
#[verifier::external_body]
fn now_secs() -> (r: u64)
{
    std::time::SystemTime::now().duration_since(std::time::UNIX_EPOCH).map(|d| d.as_secs()).unwrap_or(0)
}

/// Request counts of one service against its limits. Times are seconds since
/// the Unix epoch.
#[derive(Debug, Clone, Copy, PartialEq, Eq, Structural)]
pub struct RateLimit {
    pub requests_per_minute: u32,
    pub requests_per_hour: u32,
    pub requests_per_day: u32,
    pub current_minute_requests: u32,
    pub current_hour_requests: u32,
    pub current_day_requests: u32,
    pub last_reset_minute: u64,
    pub last_reset_hour: u64,
    pub last_reset_day: u64,
}

/// Seconds from `then` to `now`, zero when `now` is earlier.
pub open spec fn elapsed(now: u64, then: u64) -> int {
    if now >= then { now - then } else { 0 }
}

/// The limits after the windows that have run out at `now` are reset: a
/// window resets once 60, 3600 or 86400 seconds have passed since its start.
pub open spec fn refreshed(r: RateLimit, now: u64) -> RateLimit {
    let m = elapsed(now, r.last_reset_minute) >= 60;
    let h = elapsed(now, r.last_reset_hour) >= 3600;
    let d = elapsed(now, r.last_reset_day) >= 86400;
    RateLimit {
        current_minute_requests: if m { 0 } else { r.current_minute_requests },
        last_reset_minute: if m { now } else { r.last_reset_minute },
        current_hour_requests: if h { 0 } else { r.current_hour_requests },
        last_reset_hour: if h { now } else { r.last_reset_hour },
        current_day_requests: if d { 0 } else { r.current_day_requests },
        last_reset_day: if d { now } else { r.last_reset_day },
        ..r
    }
}

impl RateLimit {
    /// Fresh counters whose windows start at `now`.
    pub fn new_at(per_minute: u32, per_hour: u32, per_day: u32, now: u64) -> (r: Self)
        ensures
            r == (RateLimit {
                requests_per_minute: per_minute,
                requests_per_hour: per_hour,
                requests_per_day: per_day,
                current_minute_requests: 0,
                current_hour_requests: 0,
                current_day_requests: 0,
                last_reset_minute: now,
                last_reset_hour: now,
                last_reset_day: now,
            }),
    {
        RateLimit {
            requests_per_minute: per_minute,
            requests_per_hour: per_hour,
            requests_per_day: per_day,
            current_minute_requests: 0,
            current_hour_requests: 0,
            current_day_requests: 0,
            last_reset_minute: now,
            last_reset_hour: now,
            last_reset_day: now,
        }
    }

    /// Fresh counters whose windows start now.
    pub fn new(per_minute: u32, per_hour: u32, per_day: u32) -> (r: Self)
        ensures
            r.requests_per_minute == per_minute,
            r.requests_per_hour == per_hour,
            r.requests_per_day == per_day,
            r.current_minute_requests == 0,
            r.current_hour_requests == 0,
            r.current_day_requests == 0,
            r.last_reset_minute == r.last_reset_hour && r.last_reset_hour == r.last_reset_day,
    {
        RateLimit::new_at(per_minute, per_hour, per_day, now_secs())
    }

    /// Resets the windows that have run out at `now`.
    pub fn update_limits_at(&mut self, now: u64)
        ensures
            *final(self) == refreshed(*old(self), now),
    {
        let since_minute = if now >= self.last_reset_minute { now - self.last_reset_minute } else { 0 };
        if since_minute >= 60 {
            self.current_minute_requests = 0;
            self.last_reset_minute = now;
        }
        let since_hour = if now >= self.last_reset_hour { now - self.last_reset_hour } else { 0 };
        if since_hour >= 3600 {
            self.current_hour_requests = 0;
            self.last_reset_hour = now;
        }
        let since_day = if now >= self.last_reset_day { now - self.last_reset_day } else { 0 };
        if since_day >= 86400 {
            self.current_day_requests = 0;
            self.last_reset_day = now;
        }
    }

    /// Resets the windows that have run out by now.
    pub fn update_limits(&mut self)
        ensures
            exists|now: u64| *final(self) == refreshed(*old(self), now),
    {
        let now = now_secs();
        self.update_limits_at(now);
    }

    /// Every window still has room.
    pub fn can_make_request(&self) -> (r: bool)
        ensures
            r == (self.current_minute_requests < self.requests_per_minute
                && self.current_hour_requests < self.requests_per_hour
                && self.current_day_requests < self.requests_per_day),
    {
        self.current_minute_requests < self.requests_per_minute
            && self.current_hour_requests < self.requests_per_hour
            && self.current_day_requests < self.requests_per_day
    }

    /// Counts one request in every window.
    pub fn record_request(&mut self)
        requires
            old(self).current_minute_requests < u32::MAX,
            old(self).current_hour_requests < u32::MAX,
            old(self).current_day_requests < u32::MAX,
        ensures
            *final(self) == (RateLimit {
                current_minute_requests: (old(self).current_minute_requests + 1) as u32,
                current_hour_requests: (old(self).current_hour_requests + 1) as u32,
                current_day_requests: (old(self).current_day_requests + 1) as u32,
                ..*old(self)
            }),
    {
        self.current_minute_requests = self.current_minute_requests + 1;
        self.current_hour_requests = self.current_hour_requests + 1;
        self.current_day_requests = self.current_day_requests + 1;
    }
}

} // verus!
