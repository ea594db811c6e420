//! Errors of LLM inference, and how a provider failure is classified.

use vstd::prelude::*;
use vstd::string::StringExecFns;

use crate::text::{contains_spec, decimal, push_decimal, str_contains};

verus! {

/// Why an inference request failed.
#[derive(Debug, Clone, PartialEq, Eq)]
pub enum InferenceExecutionError {
    /// The provider reported an error.
    Provider(String),
    /// The provider rate-limited the request.
    RateLimited(String),
    /// The request timed out.
    Timeout(String),
    /// The request was cancelled.
    Cancelled,
}

/// The kind of an inference error, without its message.
#[derive(Debug, Clone, Copy, PartialEq, Eq)]
pub enum InferenceErrorKind {
    Provider,
    RateLimited,
    Timeout,
    Cancelled,
}

/// The kind and message of an error.
pub open spec fn error_kind(e: InferenceExecutionError) -> (InferenceErrorKind, Seq<char>) {
    match e {
        InferenceExecutionError::Provider(m) => (InferenceErrorKind::Provider, m@),
        InferenceExecutionError::RateLimited(m) => (InferenceErrorKind::RateLimited, m@),
        InferenceExecutionError::Timeout(m) => (InferenceErrorKind::Timeout, m@),
        InferenceExecutionError::Cancelled => (InferenceErrorKind::Cancelled, Seq::empty()),
    }
}

/// What `str::to_lowercase` gives for `s` (Unicode lowercase mapping).
pub uninterp spec fn lowercase(s: Seq<char>) -> Seq<char>;

/// `str::to_lowercase`: the Unicode lowercase of `s`; the result depends on
/// `s` alone.
#[verifier::external_body]
fn str_to_lowercase(s: &str) -> (r: String)
    ensures
        r@ == lowercase(s@),
{
    s.to_lowercase()
}

/// The kind of a provider failure, given its lowercased message: by its
/// HTTP status when it has one (429 rate limiting, 408 and 504 timeouts,
/// anything else a provider error); otherwise by words in the message.
pub open spec fn classify_lowered_spec(status: Option<u16>, lower: Seq<char>) -> InferenceErrorKind {
    match status {
        Some(s) => if s == 429 {
            InferenceErrorKind::RateLimited
        } else if s == 408 || s == 504 {
            InferenceErrorKind::Timeout
        } else {
            InferenceErrorKind::Provider
        },
        None => if contains_spec(lower, "rate"@) || contains_spec(lower, "429"@) || contains_spec(
            lower,
            "too many requests"@,
        ) {
            InferenceErrorKind::RateLimited
        } else if contains_spec(lower, "timeout"@) || contains_spec(lower, "timed out"@) {
            InferenceErrorKind::Timeout
        } else {
            InferenceErrorKind::Provider
        },
    }
}

/// The kind of a provider failure from its status and its message, which
/// is lowercased first.
pub open spec fn classify_spec(status: Option<u16>, message: Seq<char>) -> InferenceErrorKind {
    classify_lowered_spec(status, lowercase(message))
}

/// Classify a provider failure from its HTTP status code (when it has one)
/// and `lowered`, the lowercase form of its message; the message is kept.
pub fn classify_lowered(status: Option<u16>, message: String, lowered: &str) -> (e:
    InferenceExecutionError)
    ensures
        error_kind(e) == (classify_lowered_spec(status, lowered@), message@),
{
    match status {
        Some(s) => {
            if s == 429 {
                InferenceExecutionError::RateLimited(message)
            } else if s == 408 || s == 504 {
                InferenceExecutionError::Timeout(message)
            } else {
                InferenceExecutionError::Provider(message)
            }
        },
        None => {
            if str_contains(lowered, "rate") || str_contains(lowered, "429") || str_contains(
                lowered,
                "too many requests",
            ) {
                InferenceExecutionError::RateLimited(message)
            } else if str_contains(lowered, "timeout") || str_contains(lowered, "timed out") {
                InferenceExecutionError::Timeout(message)
            } else {
                InferenceExecutionError::Provider(message)
            }
        },
    }
}

/// Classify a provider failure from its HTTP status code (when the error
/// carries one) and its rendered message; the message is kept.
pub fn classify_inference_error(status: Option<u16>, message: String) -> (e: InferenceExecutionError)
    ensures
        error_kind(e) == (classify_spec(status, message@), message@),
{
    let lower = str_to_lowercase(message.as_str());
    classify_lowered(status, message, lower.as_str())
}

/// The error of an inference that did not answer within `secs` seconds.
pub fn inference_timeout(secs: u64) -> (e: InferenceExecutionError)
    ensures
        error_kind(e) == (
            InferenceErrorKind::Timeout,
            "inference timeout after "@ + decimal(secs as nat) + "s"@,
        ),
{
    let mut m = String::from_str("inference timeout after ");
    push_decimal(&mut m, secs);
    m.append("s");
    InferenceExecutionError::Timeout(m)
}

} // verus!
