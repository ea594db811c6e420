//! LLM retry policy with optional model fallback.
//!
//! [`LlmRetryPolicy`] configures retry behaviour; [`RetryDriver`] decides,
//! attempt by attempt, what the retrying executor does next. The executor
//! performs the inference calls and reports each outcome to the driver.
//! Delay between retries is not handled here.

use vstd::prelude::*;
use vstd::string::StringExecFns;

use crate::inference::InferenceExecutionError;

verus! {

/// Policy for retrying failed LLM inference.
#[derive(Debug, Clone)]
pub struct LlmRetryPolicy {
    /// Maximum number of retry attempts (0 = no retry, only the initial attempt).
    pub max_retries: u32,
    /// Fallback model names to try in order after the primary model exhausts retries.
    pub fallback_models: Vec<String>,
}

impl Default for LlmRetryPolicy {
    /// Two retries, no fallback models.
    fn default() -> (p: Self)
        ensures
            p.max_retries == 2,
            p.fallback_models@ == Seq::<String>::empty(),
    {
        LlmRetryPolicy { max_retries: 2, fallback_models: Vec::new() }
    }
}

impl LlmRetryPolicy {
    /// Create a policy that never retries.
    pub fn no_retry() -> (p: Self)
        ensures
            p.max_retries == 0,
            p.fallback_models@ == Seq::<String>::empty(),
    {
        LlmRetryPolicy { max_retries: 0, fallback_models: Vec::new() }
    }

    /// Set the maximum number of retry attempts.
    pub fn with_max_retries(self, n: u32) -> (p: Self)
        ensures
            p.max_retries == n,
            p.fallback_models == self.fallback_models,
    {
        let mut p = self;
        p.max_retries = n;
        p
    }

    /// Append a fallback model name.
    pub fn with_fallback_model(self, model: &str) -> (p: Self)
        ensures
            p.max_retries == self.max_retries,
            p.fallback_models@.len() == self.fallback_models@.len() + 1,
            p.fallback_models@.drop_last() == self.fallback_models@,
            p.fallback_models@.last()@ == model@,
    {
        let mut p = self;
        p.fallback_models.push(String::from_str(model));
        p
    }
}

/// Plugin config key for [`LlmRetryPolicy`] in the agent spec's `retry` section.
pub struct RetryConfigKey;

impl RetryConfigKey {
    pub const KEY: &'static str = "retry";
}

/// Transient errors (rate limits, timeouts, provider errors) are retryable;
/// cancellation is not.
pub open spec fn retryable(err: InferenceExecutionError) -> bool {
    !(err is Cancelled)
}

/// Whether an error is retryable.
pub fn is_retryable(err: &InferenceExecutionError) -> (r: bool)
    ensures
        r == retryable(*err),
{
    matches!(
        err,
        InferenceExecutionError::RateLimited(_) | InferenceExecutionError::Timeout(_)
            | InferenceExecutionError::Provider(_)
    )
}

/// How one inference attempt ended.
#[derive(Debug, Clone, Copy, PartialEq, Eq)]
pub enum AttemptOutcome {
    Succeeded,
    /// Failed; `retryable` tells whether the error is retryable.
    Failed { retryable: bool },
}

/// What the retrying executor does next.
#[derive(Debug, Clone, Copy, PartialEq, Eq)]
pub enum RetryAction {
    /// Run an attempt on model `model`: 0 is the request's own model, `i + 1`
    /// the fallback model `i`.
    Attempt { model: usize },
    /// Return the successful result of the last attempt.
    ReturnSuccess,
    /// Return the error of the last attempt.
    ReturnError,
}

/// Decides the attempts of one retrying inference call.
///
/// Each model (the request's, then each fallback in order) gets up to
/// `max_retries + 1` attempts. A success ends the call; a non-retryable
/// error ends it with that error; when the last model's attempts are spent,
/// the last error is returned.
pub struct RetryDriver {
    max_retries: u32,
    fallbacks: usize,
    model: usize,
    attempt: u32,
    done: bool,
}

/// The bound on attempts of one call: `(max_retries + 1) * (fallbacks + 1)`.
pub open spec fn attempt_bound(max_retries: u32, fallbacks: usize) -> int {
    (max_retries + 1) * (fallbacks + 1)
}

proof fn lemma_count_bound(model: int, attempt: int, m: int, n: int)
    requires
        0 <= model <= n,
        0 <= attempt <= m,
        0 <= m,
    ensures
        model * (m + 1) + attempt + 1 <= (m + 1) * (n + 1),
        model * (m + 1) + attempt + 1 >= 1,
{
    assert(model * (m + 1) <= n * (m + 1)) by (nonlinear_arith)
        requires
            model <= n,
            0 <= m,
    ;
    assert((m + 1) * (n + 1) == n * (m + 1) + m + 1) by (nonlinear_arith);
    assert(model * (m + 1) >= 0) by (nonlinear_arith)
        requires
            0 <= model,
            0 <= m,
    ;
}

impl RetryDriver {
    pub closed spec fn spec_model(&self) -> usize {
        self.model
    }

    pub closed spec fn spec_attempt(&self) -> u32 {
        self.attempt
    }

    pub closed spec fn spec_done(&self) -> bool {
        self.done
    }

    pub closed spec fn spec_max_retries(&self) -> u32 {
        self.max_retries
    }

    pub closed spec fn spec_fallbacks(&self) -> usize {
        self.fallbacks
    }

    /// Attempts started so far.
    pub open spec fn attempts_made(&self) -> int {
        self.spec_model() * (self.spec_max_retries() + 1) + self.spec_attempt() + 1
    }

    /// The driver's invariant.
    pub open spec fn wf(&self) -> bool {
        &&& self.spec_model() <= self.spec_fallbacks()
        &&& self.spec_attempt() <= self.spec_max_retries()
        &&& 1 <= self.attempts_made() <= attempt_bound(self.spec_max_retries(), self.spec_fallbacks())
    }

    /// Start a call under `policy`; the first action is an attempt on the
    /// request's own model.
    pub fn start(policy: &LlmRetryPolicy) -> (r: (Self, RetryAction))
        ensures
            r.0.wf(),
            !r.0.spec_done(),
            r.0.spec_max_retries() == policy.max_retries,
            r.0.spec_fallbacks() == policy.fallback_models@.len(),
            r.0.spec_model() == 0,
            r.0.spec_attempt() == 0,
            r.0.attempts_made() == 1,
            r.1 == (RetryAction::Attempt { model: 0 }),
    {
        let d = RetryDriver {
            max_retries: policy.max_retries,
            fallbacks: policy.fallback_models.len(),
            model: 0,
            attempt: 0,
            done: false,
        };
        proof {
            lemma_count_bound(0, 0, policy.max_retries as int, policy.fallback_models@.len() as int);
        }
        (d, RetryAction::Attempt { model: 0 })
    }

    /// Report the outcome of the last attempt and get the next action.
    pub fn on_outcome(&mut self, outcome: AttemptOutcome) -> (r: RetryAction)
        requires
            old(self).wf(),
            !old(self).spec_done(),
        ensures
            final(self).wf(),
            final(self).spec_max_retries() == old(self).spec_max_retries(),
            final(self).spec_fallbacks() == old(self).spec_fallbacks(),
            outcome == AttemptOutcome::Succeeded ==> r == RetryAction::ReturnSuccess
                && final(self).spec_done(),
            outcome == (AttemptOutcome::Failed { retryable: false }) ==> r
                == RetryAction::ReturnError && final(self).spec_done(),
            outcome == (AttemptOutcome::Failed { retryable: true }) ==> {
                if old(self).spec_attempt() < old(self).spec_max_retries() {
                    &&& r == (RetryAction::Attempt { model: old(self).spec_model() })
                    &&& final(self).spec_model() == old(self).spec_model()
                    &&& final(self).spec_attempt() == old(self).spec_attempt() + 1
                } else if old(self).spec_model() < old(self).spec_fallbacks() {
                    &&& r == (RetryAction::Attempt { model: (old(self).spec_model() + 1) as usize })
                    &&& final(self).spec_model() == old(self).spec_model() + 1
                    &&& final(self).spec_attempt() == 0
                } else {
                    &&& r == RetryAction::ReturnError
                    &&& final(self).spec_done()
                }
            },
            r is Attempt ==> !final(self).spec_done() && final(self).attempts_made()
                == old(self).attempts_made() + 1,
            !(r is Attempt) ==> final(self).attempts_made() == old(self).attempts_made(),
    {
        proof {
            lemma_count_bound(
                self.model as int,
                self.attempt as int,
                self.max_retries as int,
                self.fallbacks as int,
            );
        }
        match outcome {
            AttemptOutcome::Succeeded => {
                self.done = true;
                RetryAction::ReturnSuccess
            },
            AttemptOutcome::Failed { retryable } => {
                if !retryable {
                    self.done = true;
                    RetryAction::ReturnError
                } else if self.attempt < self.max_retries {
                    self.attempt = self.attempt + 1;
                    proof {
                        lemma_count_bound(
                            self.model as int,
                            self.attempt as int,
                            self.max_retries as int,
                            self.fallbacks as int,
                        );
                    }
                    RetryAction::Attempt { model: self.model }
                } else if self.model < self.fallbacks {
                    self.model = self.model + 1;
                    self.attempt = 0;
                    proof {
                        lemma_count_bound(
                            self.model as int,
                            0,
                            self.max_retries as int,
                            self.fallbacks as int,
                        );
                        assert(self.model * (self.max_retries + 1) == (self.model - 1) * (
                        self.max_retries + 1) + self.max_retries + 1) by (nonlinear_arith);
                    }
                    RetryAction::Attempt { model: self.model }
                } else {
                    self.done = true;
                    RetryAction::ReturnError
                }
            },
        }
    }
}

/// A driver whose attempts keep failing retryably gives every model its
/// full `max_retries + 1` attempts and ends with the error after exactly
/// `attempt_bound` attempts; attempts never exceed that bound.
pub proof fn lemma_attempt_bound(d: RetryDriver)
    requires
        d.wf(),
    ensures
        d.attempts_made() <= attempt_bound(d.spec_max_retries(), d.spec_fallbacks()),
        (d.spec_model() == d.spec_fallbacks() && d.spec_attempt() == d.spec_max_retries())
            ==> d.attempts_made() == attempt_bound(d.spec_max_retries(), d.spec_fallbacks()),
{
    let m = d.spec_max_retries() as int;
    let n = d.spec_fallbacks() as int;
    assert((m + 1) * (n + 1) == n * (m + 1) + m + 1) by (nonlinear_arith);
}

} // verus!
