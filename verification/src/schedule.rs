//! Scheduling decisions of the background poll loop: the base interval,
//! exponential backoff under consecutive upstream failures capped at one
//! minute, cycle skipping while nobody is connected, and the fatal
//! error threshold that terminates monitoring for good. The loop itself —
//! the timers and the awaits — runs outside the library; every decision it
//! takes comes from here.
use vstd::prelude::*;

verus! {

/// The base poll interval, in milliseconds.
pub const BASE_POLL_INTERVAL_MS: u64 = 5000;

/// The longest backoff interval, in milliseconds.
pub const MAX_BACKOFF_MS: u64 = 60000;

/// How many consecutive upstream failures terminate the poll loop.
pub const MAX_CONSECUTIVE_ERRORS: u32 = 10;

/// The smallest poll interval a client may configure, in seconds.
pub const MIN_POLL_INTERVAL_SECS: u64 = 5;

/// Two to the power `n`.
pub open spec fn pow2(n: nat) -> nat
    decreases n,
{
    if n == 0 {
        1
    } else {
        2 * pow2((n - 1) as nat)
    }
}

/// The wait before the next poll: the base interval with no failures,
/// else the base interval doubled per failure (the exponent capped at
/// four), never above [`MAX_BACKOFF_MS`].
pub open spec fn backoff_ms(errors: u32) -> u64 {
    if errors == 0 {
        BASE_POLL_INTERVAL_MS
    } else {
        let exp = if errors < 4 {
            errors as nat
        } else {
            4nat
        };
        let raw = BASE_POLL_INTERVAL_MS * pow2(exp);
        if raw > MAX_BACKOFF_MS {
            MAX_BACKOFF_MS
        } else {
            raw as u64
        }
    }
}

/// State the poll loop carries between cycles.
#[derive(Debug, Clone, Copy, PartialEq, Eq, Structural)]
pub struct PollScheduler {
    /// Consecutive upstream failures since the last success.
    pub consecutive_errors: u32,
    /// Whether the fatal error threshold has been crossed; once set, the
    /// loop never polls again.
    pub terminated: bool,
}

impl PollScheduler {
    /// The error count never passes the threshold, and crossing it is
    /// exactly what terminates the loop.
    pub open spec fn wf(&self) -> bool {
        self.consecutive_errors <= MAX_CONSECUTIVE_ERRORS && (self.terminated
            <==> self.consecutive_errors >= MAX_CONSECUTIVE_ERRORS)
    }

    /// A fresh scheduler with no failures recorded.
    pub fn new() -> (r: Self)
        ensures
            r.wf(),
            r.consecutive_errors == 0,
            !r.terminated,
    {
        PollScheduler { consecutive_errors: 0, terminated: false }
    }

    /// Whether the next cycle performs a fetch: only while the loop has
    /// not terminated and someone is watching (with no pooled connection
    /// the cycle is skipped to spare the upstream).
    pub fn should_poll(&self, active_connections: usize) -> (r: bool)
        ensures
            r == (!self.terminated && active_connections > 0),
    {
        !self.terminated && active_connections > 0
    }

    /// How long to wait before the next cycle: the base interval while a
    /// cycle is being skipped for want of watchers, else the backoff for
    /// the current failure count.
    pub fn next_wait_ms(&self, active_connections: usize) -> (r: u64)
        ensures
            active_connections == 0 ==> r == BASE_POLL_INTERVAL_MS,
            active_connections > 0 ==> r == backoff_ms(self.consecutive_errors),
    {
        if active_connections == 0 {
            return BASE_POLL_INTERVAL_MS;
        }
        let errors = self.consecutive_errors;
        if errors == 0 {
            BASE_POLL_INTERVAL_MS
        } else {
            let exp: u32 = if errors < 4 {
                errors
            } else {
                4
            };
            let raw: u64 = BASE_POLL_INTERVAL_MS << exp;
            proof {
                assert(1u64 << 1 == 2 && 1u64 << 2 == 4 && 1u64 << 3 == 8 && 1u64 << 4 == 16)
                    by (bit_vector);
                assert(5000u64 << 1 == 5000 * 2 && 5000u64 << 2 == 5000 * 4 && 5000u64 << 3
                    == 5000 * 8 && 5000u64 << 4 == 5000 * 16) by (bit_vector);
                reveal_with_fuel(pow2, 5);
                assert(pow2(1) == 2 && pow2(2) == 4 && pow2(3) == 8 && pow2(4) == 16);
            }
            if raw > MAX_BACKOFF_MS {
                MAX_BACKOFF_MS
            } else {
                raw
            }
        }
    }

    /// Records a successful fetch: the failure count starts over.
    pub fn on_fetch_success(&mut self)
        requires
            old(self).wf(),
            !old(self).terminated,
        ensures
            final(self).wf(),
            final(self).consecutive_errors == 0,
            !final(self).terminated,
    {
        self.consecutive_errors = 0;
    }

    /// Records a failed fetch: the failure count grows, and reaching the
    /// threshold terminates the loop for good.
    pub fn on_fetch_failure(&mut self)
        requires
            old(self).wf(),
            !old(self).terminated,
        ensures
            final(self).wf(),
            final(self).consecutive_errors == old(self).consecutive_errors + 1,
            final(self).terminated <==> (old(self).consecutive_errors + 1
                >= MAX_CONSECUTIVE_ERRORS),
    {
        self.consecutive_errors = self.consecutive_errors + 1;
        if self.consecutive_errors >= MAX_CONSECUTIVE_ERRORS {
            self.terminated = true;
        }
    }
}

/// Holds a client-supplied poll interval to the server-side floor.
pub fn clamp_poll_interval(secs: u64) -> (r: u64)
    ensures
        r == if secs < MIN_POLL_INTERVAL_SECS {
            MIN_POLL_INTERVAL_SECS
        } else {
            secs
        },
{
    if secs < MIN_POLL_INTERVAL_SECS {
        MIN_POLL_INTERVAL_SECS
    } else {
        secs
    }
}

} // verus!
