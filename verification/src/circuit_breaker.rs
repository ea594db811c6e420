//! Per-model circuit breaker for LLM inference.
//!
//! Prevents cascading failures by short-circuiting requests to models that
//! have experienced repeated consecutive failures. After a cooldown period
//! the circuit transitions to half-open, allowing a limited number of probe
//! requests before fully closing again on success.
//!
//! Time is read by the caller and passed in as milliseconds on a monotonic
//! clock.

use vstd::prelude::*;
use vstd::string::StringExecFns;

use crate::inference::InferenceExecutionError;
use crate::strmap::StrMap;

verus! {

/// Circuit breaker status.
#[derive(Debug, Clone, Copy, PartialEq, Eq)]
pub enum CircuitStatus {
    /// Normal operation: requests flow through.
    Closed,
    /// Too many failures: requests are rejected immediately.
    Open,
    /// Cooldown elapsed: a limited number of probe requests are allowed.
    HalfOpen,
}

/// Per-model state.
#[derive(Debug, Clone, Copy, PartialEq, Eq)]
pub struct CircuitState {
    pub consecutive_failures: u32,
    /// When the last failure happened (ms).
    pub last_failure_ms: u64,
    pub status: CircuitStatus,
    pub half_open_attempts: u32,
}

impl CircuitState {
    /// A closed circuit with no failures, created at `now_ms`.
    pub open spec fn fresh(now_ms: u64) -> CircuitState {
        CircuitState {
            consecutive_failures: 0,
            last_failure_ms: now_ms,
            status: CircuitStatus::Closed,
            half_open_attempts: 0,
        }
    }

    pub fn new(now_ms: u64) -> (s: Self)
        ensures
            s == CircuitState::fresh(now_ms),
    {
        CircuitState {
            consecutive_failures: 0,
            last_failure_ms: now_ms,
            status: CircuitStatus::Closed,
            half_open_attempts: 0,
        }
    }
}

/// Configuration for the circuit breaker.
#[derive(Debug, Clone, Copy, PartialEq, Eq)]
pub struct CircuitBreakerConfig {
    /// Number of consecutive failures before the circuit opens.
    pub failure_threshold: u32,
    /// How long (ms) the circuit stays open before transitioning to half-open.
    pub cooldown_ms: u64,
    /// Maximum probe requests allowed in the half-open state.
    pub half_open_max: u32,
}

impl Default for CircuitBreakerConfig {
    /// Five failures, 30 s cooldown, one probe.
    fn default() -> (c: Self)
        ensures
            c.failure_threshold == 5,
            c.cooldown_ms == 30_000,
            c.half_open_max == 1,
    {
        CircuitBreakerConfig { failure_threshold: 5, cooldown_ms: 30_000, half_open_max: 1 }
    }
}

/// Milliseconds from `since_ms` to `now_ms`, zero when `now_ms` is earlier.
pub open spec fn elapsed_ms(now_ms: u64, since_ms: u64) -> int {
    if now_ms >= since_ms {
        now_ms - since_ms
    } else {
        0
    }
}

/// The outcome of a check: the state afterwards and whether the request may go.
pub open spec fn check_spec(s: CircuitState, now_ms: u64, cfg: CircuitBreakerConfig) -> (
    CircuitState,
    bool,
) {
    match s.status {
        CircuitStatus::Closed => (s, true),
        CircuitStatus::Open => if elapsed_ms(now_ms, s.last_failure_ms) >= cfg.cooldown_ms {
            (CircuitState { status: CircuitStatus::HalfOpen, half_open_attempts: 1, ..s }, true)
        } else {
            (s, false)
        },
        CircuitStatus::HalfOpen => if s.half_open_attempts < cfg.half_open_max {
            (CircuitState { half_open_attempts: (s.half_open_attempts + 1) as u32, ..s }, true)
        } else {
            (s, false)
        },
    }
}

/// The state after a failure at `now_ms`: one more consecutive failure; a
/// failed probe re-opens the circuit; otherwise it opens at the threshold.
pub open spec fn failure_spec(s: CircuitState, now_ms: u64, cfg: CircuitBreakerConfig) -> CircuitState {
    let failures = (s.consecutive_failures + 1) as u32;
    CircuitState {
        consecutive_failures: failures,
        last_failure_ms: now_ms,
        status: if s.status == CircuitStatus::HalfOpen || failures >= cfg.failure_threshold {
            CircuitStatus::Open
        } else {
            s.status
        },
        ..s
    }
}

/// The state after a success: closed, with the counters reset.
pub open spec fn success_spec(s: CircuitState) -> CircuitState {
    CircuitState {
        consecutive_failures: 0,
        half_open_attempts: 0,
        status: CircuitStatus::Closed,
        ..s
    }
}

/// The message of a rejected request.
pub open spec fn open_message(model: Seq<char>) -> Seq<char> {
    "circuit breaker open for model "@ + model
}

/// Per-model circuit breaker.
pub struct CircuitBreaker {
    states: StrMap<CircuitState>,
    config: CircuitBreakerConfig,
}

impl CircuitBreaker {
    /// The per-model states.
    pub closed spec fn spec_states(&self) -> Map<Seq<char>, CircuitState> {
        self.states@
    }

    pub closed spec fn spec_config(&self) -> CircuitBreakerConfig {
        self.config
    }

    /// The state of `model` as the breaker treats it: a model never seen is
    /// a fresh closed circuit.
    pub open spec fn state_of(&self, model: Seq<char>, now_ms: u64) -> CircuitState {
        if self.spec_states().contains_key(model) {
            self.spec_states()[model]
        } else {
            CircuitState::fresh(now_ms)
        }
    }

    /// Create a circuit breaker with the given configuration.
    pub fn new(config: CircuitBreakerConfig) -> (cb: Self)
        ensures
            cb.spec_states() == Map::<Seq<char>, CircuitState>::empty(),
            cb.spec_config() == config,
    {
        CircuitBreaker { states: StrMap::new(), config }
    }

    /// The state recorded for `model`, if any.
    pub fn state(&self, model: &str) -> (r: Option<CircuitState>)
        ensures
            match r {
                Some(s) => self.spec_states().contains_key(model@) && s == self.spec_states()[model@],
                None => !self.spec_states().contains_key(model@),
            },
    {
        match self.states.get(model) {
            Some(s) => Some(*s),
            None => None,
        }
    }

    /// Check whether a request to `model` is allowed at `now_ms`.
    ///
    /// `Ok(())` if the circuit is closed, or half-open under the probe limit
    /// (an open circuit whose cooldown has elapsed turns half-open and lets
    /// one probe through); otherwise
    /// `Err(Provider("circuit breaker open for model <model>"))`.
    /// The model's state is recorded (created fresh when absent).
    pub fn check(&mut self, model: &str, now_ms: u64) -> (r: Result<(), InferenceExecutionError>)
        ensures
            final(self).spec_config() == old(self).spec_config(),
            final(self).spec_states() == old(self).spec_states().insert(
                model@,
                check_spec(old(self).state_of(model@, now_ms), now_ms, old(self).spec_config()).0,
            ),
            check_spec(old(self).state_of(model@, now_ms), now_ms, old(self).spec_config()).1 ==> r
                is Ok,
            !check_spec(old(self).state_of(model@, now_ms), now_ms, old(self).spec_config()).1
                ==> (r matches Err(InferenceExecutionError::Provider(m)) && m@ == open_message(
                model@,
            )),
    {
        let s = match self.states.get(model) {
            Some(s) => *s,
            None => CircuitState::new(now_ms),
        };
        let (next, allowed) = match s.status {
            CircuitStatus::Closed => (s, true),
            CircuitStatus::Open => {
                if now_ms.saturating_sub(s.last_failure_ms) >= self.config.cooldown_ms {
                    (
                        CircuitState {
                            status: CircuitStatus::HalfOpen,
                            half_open_attempts: 1,
                            ..s
                        },
                        true,
                    )
                } else {
                    (s, false)
                }
            },
            CircuitStatus::HalfOpen => {
                if s.half_open_attempts < self.config.half_open_max {
                    (CircuitState { half_open_attempts: s.half_open_attempts + 1, ..s }, true)
                } else {
                    (s, false)
                }
            },
        };
        self.states.insert(String::from_str(model), next);
        if allowed {
            Ok(())
        } else {
            let mut m = String::from_str("circuit breaker open for model ");
            m.append(model);
            Err(InferenceExecutionError::Provider(m))
        }
    }

    /// Record a successful request to `model`, resetting its circuit to closed.
    /// A model without a recorded state is left untouched.
    pub fn record_success(&mut self, model: &str)
        ensures
            final(self).spec_config() == old(self).spec_config(),
            old(self).spec_states().contains_key(model@) ==> final(self).spec_states() == old(
                self,
            ).spec_states().insert(model@, success_spec(old(self).spec_states()[model@])),
            !old(self).spec_states().contains_key(model@) ==> final(self).spec_states() == old(
                self,
            ).spec_states(),
    {
        match self.states.get(model) {
            Some(s) => {
                let next = CircuitState {
                    consecutive_failures: 0,
                    half_open_attempts: 0,
                    status: CircuitStatus::Closed,
                    ..*s
                };
                self.states.insert(String::from_str(model), next);
            },
            None => {},
        }
    }

    /// Record a failed request to `model` at `now_ms`, potentially opening the circuit.
    pub fn record_failure(&mut self, model: &str, now_ms: u64)
        requires
            old(self).state_of(model@, now_ms).consecutive_failures < u32::MAX,
        ensures
            final(self).spec_config() == old(self).spec_config(),
            final(self).spec_states() == old(self).spec_states().insert(
                model@,
                failure_spec(old(self).state_of(model@, now_ms), now_ms, old(self).spec_config()),
            ),
    {
        let s = match self.states.get(model) {
            Some(s) => *s,
            None => CircuitState::new(now_ms),
        };
        let failures = s.consecutive_failures + 1;
        let status = if matches!(s.status, CircuitStatus::HalfOpen) || failures
            >= self.config.failure_threshold {
            CircuitStatus::Open
        } else {
            s.status
        };
        let next = CircuitState {
            consecutive_failures: failures,
            last_failure_ms: now_ms,
            status,
            ..s
        };
        self.states.insert(String::from_str(model), next);
    }
}

/// The state after failures at the times `ts`, in order, starting from `s`.
pub open spec fn failures_at(s: CircuitState, ts: Seq<u64>, cfg: CircuitBreakerConfig) -> CircuitState
    decreases ts.len(),
{
    if ts.len() == 0 {
        s
    } else {
        failure_spec(failures_at(s, ts.drop_last(), cfg), ts.last(), cfg)
    }
}

/// From a fresh circuit, failures at any times `ts` (`n` of them) leave it
/// with `n` consecutive failures, the last one's time recorded; it is
/// closed while there are none or fewer than the threshold, and open once
/// there is at least one and the threshold is reached. A check before the
/// cooldown has elapsed since the last failure is allowed exactly when
/// there is no failure or fewer than the threshold; so with a threshold of
/// 0 the first failure opens the circuit, and without failures every check
/// is allowed.
pub proof fn lemma_opens_at_threshold(
    start_ms: u64,
    ts: Seq<u64>,
    now_ms: u64,
    cfg: CircuitBreakerConfig,
)
    requires
        ts.len() < u32::MAX,
        ts.len() > 0 ==> elapsed_ms(now_ms, ts.last()) < cfg.cooldown_ms,
    ensures
        failures_at(CircuitState::fresh(start_ms), ts, cfg).consecutive_failures == ts.len(),
        ts.len() > 0 ==> failures_at(CircuitState::fresh(start_ms), ts, cfg).last_failure_ms
            == ts.last(),
        (ts.len() == 0 || ts.len() < cfg.failure_threshold) ==> failures_at(
            CircuitState::fresh(start_ms),
            ts,
            cfg,
        ).status == CircuitStatus::Closed,
        (ts.len() > 0 && ts.len() >= cfg.failure_threshold) ==> failures_at(
            CircuitState::fresh(start_ms),
            ts,
            cfg,
        ).status == CircuitStatus::Open,
        check_spec(failures_at(CircuitState::fresh(start_ms), ts, cfg), now_ms, cfg).1 == (ts.len()
            == 0 || ts.len() < cfg.failure_threshold),
{
    lemma_failures_shape(start_ms, ts, cfg);
}

proof fn lemma_failures_shape(start_ms: u64, ts: Seq<u64>, cfg: CircuitBreakerConfig)
    requires
        ts.len() < u32::MAX,
    ensures
        failures_at(CircuitState::fresh(start_ms), ts, cfg).consecutive_failures == ts.len(),
        ts.len() > 0 ==> failures_at(CircuitState::fresh(start_ms), ts, cfg).last_failure_ms
            == ts.last(),
        (ts.len() == 0 || ts.len() < cfg.failure_threshold) ==> failures_at(
            CircuitState::fresh(start_ms),
            ts,
            cfg,
        ).status == CircuitStatus::Closed,
        (ts.len() > 0 && ts.len() >= cfg.failure_threshold) ==> failures_at(
            CircuitState::fresh(start_ms),
            ts,
            cfg,
        ).status == CircuitStatus::Open,
    decreases ts.len(),
{
    if ts.len() > 0 {
        lemma_failures_shape(start_ms, ts.drop_last(), cfg);
    }
}

/// A success closes the circuit and clears its failures, whatever state it was in.
pub proof fn lemma_success_resets(s: CircuitState, now_ms: u64, cfg: CircuitBreakerConfig)
    ensures
        success_spec(s).status == CircuitStatus::Closed,
        success_spec(s).consecutive_failures == 0,
        check_spec(success_spec(s), now_ms, cfg).1,
{
}

/// The circuit after `k` checks at `now_ms`, starting from `s`.
pub open spec fn checks_spec(s: CircuitState, k: nat, now_ms: u64, cfg: CircuitBreakerConfig) -> CircuitState
    decreases k,
{
    if k == 0 {
        s
    } else {
        check_spec(checks_spec(s, (k - 1) as nat, now_ms, cfg), now_ms, cfg).0
    }
}

/// Once the cooldown of an open circuit has elapsed, exactly
/// `max(half_open_max, 1)` checks in a row are let through as probes (the
/// first moves the circuit to half-open, each counts a probe) and every
/// check after them is refused.
pub proof fn lemma_half_open_probe_limit(
    s: CircuitState,
    k: nat,
    now_ms: u64,
    cfg: CircuitBreakerConfig,
)
    requires
        s.status == CircuitStatus::Open,
        elapsed_ms(now_ms, s.last_failure_ms) >= cfg.cooldown_ms,
    ensures
        k < (if cfg.half_open_max >= 1 {
            cfg.half_open_max as nat
        } else {
            1
        }) ==> check_spec(checks_spec(s, k, now_ms, cfg), now_ms, cfg).1,
        k >= (if cfg.half_open_max >= 1 {
            cfg.half_open_max as nat
        } else {
            1
        }) ==> !check_spec(checks_spec(s, k, now_ms, cfg), now_ms, cfg).1,
        k >= 1 ==> checks_spec(s, k, now_ms, cfg).status == CircuitStatus::HalfOpen,
        k >= 1 ==> checks_spec(s, k, now_ms, cfg).half_open_attempts == (if k <= cfg.half_open_max {
            k
        } else if cfg.half_open_max >= 1 {
            cfg.half_open_max as nat
        } else {
            1
        }),
    decreases k,
{
    if k > 0 {
        lemma_half_open_probe_limit(s, (k - 1) as nat, now_ms, cfg);
    }
}

} // verus!
