//! Failure-driven circuit breaker: after `failure_threshold` consecutive
//! upstream failures the breaker opens and requests are rejected until the
//! cooldown has elapsed; then exactly one probe is admitted (half-open)
//! and further requests are rejected until the probe resolves through
//! `record_success` or `record_failure`.
//!
//! The breaker itself holds no clock: callers pass the current time as a
//! number, in the same unit as the cooldown.

use vstd::prelude::*;

verus! {

/// The state of the circuit breaker.
#[derive(Debug)]
pub struct CircuitBreakerState {
    /// Whether the breaker gates requests at all.
    pub enabled: bool,
    /// Upstream failures since the last success.
    pub consecutive_failures: u32,
    /// Whether the breaker is open (rejecting requests).
    pub is_open: bool,
    /// When the breaker last opened; set whenever it opens.
    pub opened_at: Option<u64>,
    /// Whether a half-open probe has been admitted and not yet resolved.
    pub half_open_probe: bool,
    /// How many consecutive failures open the breaker.
    pub failure_threshold: u32,
    /// How long an open breaker rejects before admitting a probe.
    pub cooldown: u64,
}

/// The state after a success: failures cleared, breaker closed.
pub open spec fn spec_record_success(s: CircuitBreakerState) -> CircuitBreakerState {
    CircuitBreakerState {
        consecutive_failures: 0,
        is_open: false,
        half_open_probe: false,
        ..s
    }
}

/// The state after a failure at time `now`: the count grows (stopping at
/// the largest `u32`) and reaching the threshold opens the breaker.
pub open spec fn spec_record_failure(s: CircuitBreakerState, now: u64) -> CircuitBreakerState {
    let cf = if s.consecutive_failures < u32::MAX {
        (s.consecutive_failures + 1) as u32
    } else {
        u32::MAX
    };
    if cf >= s.failure_threshold {
        CircuitBreakerState {
            consecutive_failures: cf,
            is_open: true,
            opened_at: Some(now),
            half_open_probe: false,
            ..s
        }
    } else {
        CircuitBreakerState { consecutive_failures: cf, half_open_probe: false, ..s }
    }
}

/// Whether a request at time `now` is admitted, and the state after the
/// decision: a disabled or closed breaker admits; an open one rejects
/// within the cooldown and while a probe is outstanding, and otherwise
/// admits exactly one probe.
pub open spec fn spec_allow_step(s: CircuitBreakerState, now: u64) -> (bool, CircuitBreakerState) {
    if !s.enabled || !s.is_open {
        (true, s)
    } else if s.half_open_probe {
        (false, s)
    } else {
        let opened = match s.opened_at {
            Some(t) => t,
            None => 0,
        };
        let elapsed = if now >= opened {
            (now - opened) as u64
        } else {
            0
        };
        if elapsed < s.cooldown {
            (false, s)
        } else {
            (true, CircuitBreakerState { half_open_probe: true, ..s })
        }
    }
}

/// The state after `n` failures in a row, each recorded at time `now`.
pub open spec fn apply_failures(s: CircuitBreakerState, now: u64, n: nat) -> CircuitBreakerState
    decreases n,
{
    if n == 0 {
        s
    } else {
        spec_record_failure(apply_failures(s, now, (n - 1) as nat), now)
    }
}

proof fn lemma_apply_failures_count(s: CircuitBreakerState, now: u64, n: nat)
    ensures
        apply_failures(s, now, n).consecutive_failures == if s.consecutive_failures + n
            < u32::MAX { (s.consecutive_failures + n) as u32 } else { u32::MAX },
        apply_failures(s, now, n).enabled == s.enabled,
        apply_failures(s, now, n).failure_threshold == s.failure_threshold,
        apply_failures(s, now, n).cooldown == s.cooldown,
    decreases n,
{
    if n > 0 {
        lemma_apply_failures_count(s, now, (n - 1) as nat);
    }
}

/// After at least `failure_threshold` consecutive failures (and at least
/// one), all recorded at time `t` and without an intervening success, an
/// enabled breaker rejects every request that comes before the cooldown
/// has elapsed.
pub proof fn lemma_breaker_opens(s: CircuitBreakerState, t: u64, n: nat, now: u64)
    requires
        s.enabled,
        n >= s.failure_threshold,
        n >= 1,
        t <= now < t + apply_failures(s, t, n).cooldown,
    ensures
        apply_failures(s, t, n).is_open,
        apply_failures(s, t, n).opened_at == Some(t),
        !spec_allow_step(apply_failures(s, t, n), now).0,
{
    lemma_apply_failures_count(s, t, (n - 1) as nat);
    let before = apply_failures(s, t, (n - 1) as nat);
    let after = spec_record_failure(before, t);
    assert(after.consecutive_failures >= s.failure_threshold);
}

/// After a success the breaker admits requests again, whatever came
/// before.
pub proof fn lemma_success_admits(s: CircuitBreakerState, now: u64)
    ensures
        spec_allow_step(spec_record_success(s), now).0,
{
}

impl CircuitBreakerState {
    /// A closed breaker with the given gating parameters.
    pub fn new(enabled: bool, failure_threshold: u32, cooldown: u64) -> (r: Self)
        ensures
            r.enabled == enabled,
            r.failure_threshold == failure_threshold,
            r.cooldown == cooldown,
            r.consecutive_failures == 0,
            !r.is_open,
            !r.half_open_probe,
            r.opened_at is None,
    {
        CircuitBreakerState {
            enabled,
            consecutive_failures: 0,
            is_open: false,
            opened_at: None,
            half_open_probe: false,
            failure_threshold,
            cooldown,
        }
    }

    /// Record an upstream success.
    pub fn record_success(&mut self)
        ensures
            *final(self) == spec_record_success(*old(self)),
    {
        self.consecutive_failures = 0;
        self.is_open = false;
        self.half_open_probe = false;
    }

    /// Record an upstream failure observed at time `now`.
    pub fn record_failure(&mut self, now: u64)
        ensures
            *final(self) == spec_record_failure(*old(self), now),
    {
        self.consecutive_failures = if self.consecutive_failures < u32::MAX {
            self.consecutive_failures + 1
        } else {
            u32::MAX
        };
        self.half_open_probe = false;
        if self.consecutive_failures >= self.failure_threshold {
            self.is_open = true;
            self.opened_at = Some(now);
        }
    }

    /// Decide whether a request arriving at time `now` may go upstream.
    pub fn should_allow_request(&mut self, now: u64) -> (r: bool)
        ensures
            r == spec_allow_step(*old(self), now).0,
            *final(self) == spec_allow_step(*old(self), now).1,
    {
        if !self.enabled || !self.is_open {
            return true;
        }
        if self.half_open_probe {
            return false;
        }
        let opened = match self.opened_at {
            Some(t) => t,
            None => 0,
        };
        let elapsed = if now >= opened {
            now - opened
        } else {
            0
        };
        if elapsed < self.cooldown {
            false
        } else {
            self.half_open_probe = true;
            true
        }
    }

    /// Whether the health endpoint reports the service unhealthy: an
    /// enabled breaker that is open.
    pub fn is_unhealthy(&self) -> (r: bool)
        ensures
            r == (self.enabled && self.is_open),
    {
        self.enabled && self.is_open
    }
}

} // verus!
