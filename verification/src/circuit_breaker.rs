//! A circuit breaker for calls to a service that may be down: after enough
//! failures in a row no call is tried for a while, then one is let through
//! to see whether the service is back.

use crate::clock::now_millis;
use vstd::prelude::*;

verus! {

/// Where the breaker stands.
#[derive(Debug, Clone, Copy, PartialEq, Eq, Structural)]
pub enum CircuitState {
    /// Calls go through.
    Closed,
    /// Calls are held back.
    Open,
    /// A call is let through as a probe.
    HalfOpen,
}

/// Failures in a row after which the breaker opens, unless set otherwise.
pub const DEFAULT_FAILURE_THRESHOLD: u32 = 5;

/// How long the breaker stays open, in milliseconds, unless set otherwise.
pub const DEFAULT_TIMEOUT_MS: u64 = 30_000;

/// The breaker. Times are milliseconds.
#[derive(Debug, Clone, Copy, PartialEq, Eq, Structural)]
pub struct CircuitBreaker {
    pub state: CircuitState,
    /// Failures since the last success.
    pub failure_count: u32,
    /// When the last failure happened.
    pub last_failure_time: Option<u64>,
    pub failure_threshold: u32,
    pub timeout_duration: u64,
}

impl CircuitBreaker {
    /// A closed breaker that opens after five failures and stays open for
    /// thirty seconds.
    pub open spec fn fresh() -> CircuitBreaker {
        CircuitBreaker {
            state: CircuitState::Closed,
            failure_count: 0,
            last_failure_time: None,
            failure_threshold: 5,
            timeout_duration: 30_000,
        }
    }

    /// The breaker after a success: closed if it was probing, with no
    /// failure on record.
    pub open spec fn after_success(self) -> CircuitBreaker {
        CircuitBreaker {
            state: if self.state == CircuitState::HalfOpen {
                CircuitState::Closed
            } else {
                self.state
            },
            failure_count: 0,
            last_failure_time: None,
            ..self
        }
    }

    /// The breaker after a failure at `now`: one more failure on record
    /// (the count stops at the largest number), and open if it was closed
    /// and the failures reach the threshold.
    pub open spec fn after_failure(self, now: u64) -> CircuitBreaker {
        let count = if self.failure_count == u32::MAX {
            u32::MAX
        } else {
            (self.failure_count + 1) as u32
        };
        CircuitBreaker {
            state: if count >= self.failure_threshold && self.state == CircuitState::Closed {
                CircuitState::Open
            } else {
                self.state
            },
            failure_count: count,
            last_failure_time: Some(now),
            ..self
        }
    }

    /// Whether an open breaker lets a probe through at `now`: the time it
    /// stays open has passed since the last failure.
    pub open spec fn probe_due(self, now: u64) -> bool {
        self.last_failure_time matches Some(last) && now >= last && now - last
            >= self.timeout_duration
    }

    /// Whether a call may be tried at `now`: always unless the breaker is
    /// open, and then once a probe is due.
    pub open spec fn admits(self, now: u64) -> bool {
        self.state != CircuitState::Open || self.probe_due(now)
    }

    /// The breaker after the question whether a call may be tried at `now`:
    /// probing if it was open and a probe is due, else unchanged.
    pub open spec fn after_attempt(self, now: u64) -> CircuitBreaker {
        if self.state == CircuitState::Open && self.probe_due(now) {
            CircuitBreaker { state: CircuitState::HalfOpen, ..self }
        } else {
            self
        }
    }

    /// A closed breaker with the standard threshold and time.
    pub fn new() -> (breaker: CircuitBreaker)
        ensures
            breaker == CircuitBreaker::fresh(),
    {
        CircuitBreaker {
            state: CircuitState::Closed,
            failure_count: 0,
            last_failure_time: None,
            failure_threshold: DEFAULT_FAILURE_THRESHOLD,
            timeout_duration: DEFAULT_TIMEOUT_MS,
        }
    }

    /// Takes note of a call that succeeded.
    pub fn record_success(&mut self)
        ensures
            *final(self) == old(self).after_success(),
    {
        if self.state == CircuitState::HalfOpen {
            self.state = CircuitState::Closed;
        }
        self.failure_count = 0;
        self.last_failure_time = None;
    }

    /// Takes note of a call that failed at `now_ms`.
    pub fn record_failure_at(&mut self, now_ms: u64)
        ensures
            *final(self) == old(self).after_failure(now_ms),
    {
        self.failure_count = self.failure_count.saturating_add(1);
        self.last_failure_time = Some(now_ms);
        if self.failure_count >= self.failure_threshold {
            if self.state == CircuitState::Closed {
                self.state = CircuitState::Open;
            }
        }
    }

    /// Takes note of a call that failed at the time of the call.
    pub fn record_failure(&mut self)
        ensures
            exists|now: u64| *final(self) == #[trigger] old(self).after_failure(now),
    {
        let now = now_millis();
        self.record_failure_at(now);
    }

    /// Whether a call may be tried at `now_ms`. An open breaker whose time
    /// has passed starts probing.
    pub fn can_attempt_at(&mut self, now_ms: u64) -> (allowed: bool)
        ensures
            allowed == old(self).admits(now_ms),
            *final(self) == old(self).after_attempt(now_ms),
    {
        match self.state {
            CircuitState::Closed => true,
            CircuitState::Open => {
                match self.last_failure_time {
                    Some(last) => {
                        if now_ms >= last && now_ms - last >= self.timeout_duration {
                            self.state = CircuitState::HalfOpen;
                            true
                        } else {
                            false
                        }
                    },
                    None => false,
                }
            },
            CircuitState::HalfOpen => true,
        }
    }

    /// Whether a call may be tried at the time of the call.
    pub fn can_attempt(&mut self) -> (allowed: bool)
        ensures
            exists|now: u64|
                allowed == #[trigger] old(self).admits(now) && *final(self) == old(self).after_attempt(now),
            old(self).state != CircuitState::Open ==> allowed && *final(self) == *old(self),
    {
        let now = now_millis();
        self.can_attempt_at(now)
    }

    /// Whether calls are held back.
    pub fn is_open(&self) -> (open: bool)
        ensures
            open == (self.state == CircuitState::Open),
    {
        self.state == CircuitState::Open
    }
}

/// A breaker that was closed opens exactly with the failure that brings the
/// failures in a row to the threshold, and a success while probing closes it.
pub proof fn lemma_breaker_opens_at_threshold(breaker: CircuitBreaker, now: u64)
    requires
        breaker.state == CircuitState::Closed,
        breaker.failure_count < u32::MAX,
    ensures
        breaker.after_failure(now).state == CircuitState::Open <==> breaker.failure_count + 1
            >= breaker.failure_threshold,
        (CircuitBreaker { state: CircuitState::HalfOpen, ..breaker }).after_success().state
            == CircuitState::Closed,
{
}

/// A breaker that has just opened holds calls back until the time it
/// stays open has passed, and lets a probe through from then on.
pub proof fn lemma_open_breaker_waits(breaker: CircuitBreaker, failed_at: u64, now: u64)
    requires
        breaker.after_failure(failed_at).state == CircuitState::Open,
        failed_at <= now,
    ensures
        breaker.after_failure(failed_at).admits(now) <==> now - failed_at
            >= breaker.timeout_duration,
        breaker.after_failure(failed_at).admits(now) ==> breaker.after_failure(
            failed_at,
        ).after_attempt(now).state == CircuitState::HalfOpen,
{
}

} // verus!
