//! A circuit breaker that stops reconnecting to a server that keeps failing.
//!
//! ```text
//! Closed   ──(fail_count >= threshold)──> Open
//! Open     ──(cooldown elapsed)─────────> HalfOpen
//! HalfOpen ──(success)──────────────────> Closed
//! HalfOpen ──(failure)──────────────────> Open
//! ```
use vstd::prelude::*;
use std::time::{Duration, Instant};
use crate::clock::{duration_from_secs, duration_nanos, elapsed_at_least, now};

verus! {

/// Settings of a circuit breaker.
pub struct CircuitBreakerConfig {
    /// Consecutive failures that open the breaker.
    pub failure_threshold: u32,
    /// How long the breaker stays open before it lets a probe through.
    pub cooldown: Duration,
}

impl Default for CircuitBreakerConfig {
    /// Three failures, thirty seconds.
    fn default() -> (r: Self)
        ensures
            r.failure_threshold == 3,
            duration_nanos(r.cooldown) == 30 * 1_000_000_000,
    {
        CircuitBreakerConfig { failure_threshold: 3, cooldown: duration_from_secs(30) }
    }
}

/// The state of a breaker.
#[derive(Debug, Clone, Copy, PartialEq, Eq, Structural)]
pub enum CircuitState {
    /// Requests pass.
    Closed,
    /// Requests are refused until the cooldown has passed.
    Open,
    /// One probe is let through.
    HalfOpen,
}

/// A breaker as plain data.
pub struct CircuitView {
    pub state: CircuitState,
    pub fail_count: u32,
    /// Whether a failure time is recorded.
    pub has_failure_time: bool,
    pub threshold: u32,
}

/// A breaker that is not closed has seen at least `threshold` failures.
pub open spec fn view_wf(v: CircuitView) -> bool {
    v.state != CircuitState::Closed ==> v.fail_count >= v.threshold
}

/// A new (or reset) breaker.
pub open spec fn fresh(threshold: u32) -> CircuitView {
    CircuitView { state: CircuitState::Closed, fail_count: 0, has_failure_time: false, threshold }
}

/// The breaker after a success: closed, count cleared.
pub open spec fn after_success(v: CircuitView) -> CircuitView {
    CircuitView { state: CircuitState::Closed, fail_count: 0, ..v }
}

/// The breaker after a failure: one more failure, its time recorded, open
/// once the count reaches the threshold.
pub open spec fn after_failure(v: CircuitView) -> CircuitView {
    let count = (v.fail_count + 1) as u32;
    CircuitView {
        state: if count >= v.threshold { CircuitState::Open } else { v.state },
        fail_count: count,
        has_failure_time: true,
        threshold: v.threshold,
    }
}

/// The breaker after a request was asked for, given whether the cooldown has
/// passed since the last failure: `(allowed, breaker)`.
pub open spec fn after_allow(v: CircuitView, cooldown_elapsed: bool) -> (bool, CircuitView) {
    match v.state {
        CircuitState::Closed => (true, v),
        CircuitState::HalfOpen => (true, v),
        CircuitState::Open => if !v.has_failure_time || cooldown_elapsed {
            (true, CircuitView { state: CircuitState::HalfOpen, ..v })
        } else {
            (false, v)
        },
    }
}

/// A circuit breaker.
pub struct CircuitBreaker {
    state: CircuitState,
    fail_count: u32,
    last_failure: Option<Instant>,
    config: CircuitBreakerConfig,
}

impl View for CircuitBreaker {
    type V = CircuitView;

    closed spec fn view(&self) -> CircuitView {
        CircuitView {
            state: self.state,
            fail_count: self.fail_count,
            has_failure_time: self.last_failure is Some,
            threshold: self.config.failure_threshold,
        }
    }
}

impl CircuitBreaker {
    #[verifier::type_invariant]
    spec fn inv(self) -> bool {
        view_wf(self@)
    }

    /// The cooldown of this breaker.
    pub closed spec fn cooldown(&self) -> Duration {
        self.config.cooldown
    }

    /// A closed breaker with no failures.
    pub fn new(config: CircuitBreakerConfig) -> (r: Self)
        ensures
            r@ == fresh(config.failure_threshold),
            r.cooldown() == config.cooldown,
    {
        CircuitBreaker { state: CircuitState::Closed, fail_count: 0, last_failure: None, config }
    }

    /// Decides on a request, given whether the cooldown has passed since the
    /// last failure: closed and half-open breakers allow it; an open breaker
    /// allows it and turns half-open once the cooldown has passed (or when no
    /// failure time is recorded), else refuses it.
    pub fn allow_request_after(&mut self, cooldown_elapsed: bool) -> (r: bool)
        ensures
            (r, final(self)@) == after_allow(old(self)@, cooldown_elapsed),
            final(self).cooldown() == old(self).cooldown(),
            view_wf(final(self)@),
    {
        proof {
            use_type_invariant(&*self);
        }
        match self.state {
            CircuitState::Closed => true,
            CircuitState::HalfOpen => true,
            CircuitState::Open => {
                if self.last_failure.is_none() || cooldown_elapsed {
                    self.state = CircuitState::HalfOpen;
                    true
                } else {
                    false
                }
            },
        }
    }

    /// Whether a request may go out now. For an open breaker with a recorded
    /// failure this reads the clock: whether the cooldown has passed is not
    /// known in advance, except with a zero cooldown, which has always
    /// passed.
    pub fn allow_request(&mut self) -> (r: bool)
        ensures
            exists|elapsed: bool| (r, final(self)@) == #[trigger] after_allow(old(self)@, elapsed),
            duration_nanos(old(self).cooldown()) == 0 ==> (r, final(self)@) == after_allow(old(self)@, true),
            final(self).cooldown() == old(self).cooldown(),
            view_wf(final(self)@),
    {
        let elapsed = match &self.last_failure {
            Some(instant) => {
                if self.state == CircuitState::Open {
                    elapsed_at_least(instant, &self.config.cooldown)
                } else {
                    false
                }
            },
            None => false,
        };
        self.allow_request_after(elapsed)
    }

    /// Records a success: the breaker closes and its count clears.
    pub fn record_success(&mut self)
        ensures
            final(self)@ == after_success(old(self)@),
            final(self).cooldown() == old(self).cooldown(),
    {
        self.state = CircuitState::Closed;
        self.fail_count = 0;
    }

    /// Records a failure at the current time; the breaker opens once the
    /// count reaches the threshold.
    pub fn record_failure(&mut self)
        requires
            old(self)@.fail_count < u32::MAX,
        ensures
            final(self)@ == after_failure(old(self)@),
            final(self).cooldown() == old(self).cooldown(),
            view_wf(final(self)@),
    {
        proof {
            use_type_invariant(&*self);
        }
        let count = self.fail_count + 1;
        let t = now();
        self.last_failure = Some(t);
        self.fail_count = count;
        if count >= self.config.failure_threshold {
            self.state = CircuitState::Open;
        }
    }

    /// Back to a new breaker: closed, no failures, no failure time.
    pub fn reset(&mut self)
        ensures
            final(self)@ == fresh(old(self)@.threshold),
            final(self).cooldown() == old(self).cooldown(),
    {
        self.state = CircuitState::Closed;
        self.fail_count = 0;
        self.last_failure = None;
    }

    /// The current failure count.
    pub fn failure_count(&self) -> (r: u32)
        ensures
            r == self@.fail_count,
    {
        self.fail_count
    }

    /// Whether the breaker is open (refusing requests).
    pub fn is_open(&self) -> (r: bool)
        ensures
            r == (self@.state == CircuitState::Open),
    {
        self.state == CircuitState::Open
    }
}

/// `n` failures in a row.
pub open spec fn failures(v: CircuitView, n: nat) -> CircuitView
    decreases n,
{
    if n == 0 {
        v
    } else {
        after_failure(failures(v, (n - 1) as nat))
    }
}

/// Law: from a new breaker, `threshold` failures in a row open it (a positive
/// threshold), and fewer leave it closed.
pub proof fn law_threshold_failures_open(threshold: u32, n: nat)
    requires
        threshold >= 1,
        n <= threshold,
    ensures
        failures(fresh(threshold), n).fail_count == n,
        n < threshold ==> failures(fresh(threshold), n).state == CircuitState::Closed,
        n == threshold ==> failures(fresh(threshold), n).state == CircuitState::Open,
    decreases n,
{
    if n > 0 {
        law_threshold_failures_open(threshold, (n - 1) as nat);
        let prev = failures(fresh(threshold), (n - 1) as nat);
        assert(prev.threshold == threshold) by {
            lemma_failures_threshold(threshold, (n - 1) as nat);
        }
        assert(prev.fail_count == n - 1);
        assert(failures(fresh(threshold), n) == after_failure(prev));
        assert((prev.fail_count + 1) as u32 == n);
    }
}

/// Failures keep the threshold.
pub proof fn lemma_failures_threshold(threshold: u32, n: nat)
    ensures
        failures(fresh(threshold), n).threshold == threshold,
    decreases n,
{
    if n > 0 {
        lemma_failures_threshold(threshold, (n - 1) as nat);
    }
}

/// Law: a success always closes the breaker and clears its count.
pub proof fn law_success_closes(v: CircuitView)
    ensures
        after_success(v).state == CircuitState::Closed,
        after_success(v).fail_count == 0,
        view_wf(after_success(v)),
{
}

/// Law: a failed probe reopens a half-open breaker.
pub proof fn law_half_open_failure_reopens(v: CircuitView)
    requires
        view_wf(v),
        v.state == CircuitState::HalfOpen,
        v.fail_count < u32::MAX,
    ensures
        after_failure(v).state == CircuitState::Open,
{
}

/// Law: an open breaker lets the first request after the cooldown through and
/// turns half-open; before the cooldown it refuses.
pub proof fn law_open_cooldown(v: CircuitView)
    requires
        v.state == CircuitState::Open,
        v.has_failure_time,
    ensures
        after_allow(v, true) == (true, CircuitView { state: CircuitState::HalfOpen, ..v }),
        after_allow(v, false) == (false, v),
{
}

/// Law: every step keeps the breaker well formed.
pub proof fn law_steps_keep_wf(v: CircuitView, elapsed: bool)
    requires
        view_wf(v),
        v.fail_count < u32::MAX,
    ensures
        view_wf(after_failure(v)),
        view_wf(after_success(v)),
        view_wf(after_allow(v, elapsed).1),
        view_wf(fresh(v.threshold)),
{
}

} // verus!
