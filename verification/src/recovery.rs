//! Truncation recovery: when the model stops at its output token limit
//! with tool calls left incomplete, the loop asks it to continue, a bounded
//! number of times per run.

use vstd::prelude::*;
use vstd::string::StringExecFns;

use crate::message::{Message, Role, Visibility};
use crate::stream::{StopReason, StreamResult};

verus! {

/// Continuation prompt sent to the model after truncation.
pub const CONTINUATION_PROMPT: &'static str = "Your response was cut off because it exceeded the output token limit. Please break your work into smaller pieces. Continue from where you left off.";

/// Recovery retries taken during a single run.
#[derive(Debug)]
pub struct TruncationState {
    pub truncation_retries: usize,
}

impl TruncationState {
    pub fn new() -> (s: Self)
        ensures
            s.truncation_retries == 0,
    {
        TruncationState { truncation_retries: 0 }
    }
}

/// A result needs truncation recovery when the model stopped at its token
/// limit and some tool call was left incomplete.
pub open spec fn needs_truncation_recovery(r: StreamResult) -> bool {
    r.stop_reason == Some(StopReason::MaxTokens) && r.has_incomplete_tool_calls
}

/// Whether truncation recovery retries inference: the result needs
/// recovery, retries are configured, and fewer than `max_retries` have been
/// taken. A retry is counted.
pub fn should_retry(result: &StreamResult, state: &mut TruncationState, max_retries: usize) -> (r: bool)
    ensures
        r == (needs_truncation_recovery(*result) && max_retries > 0 && old(
            state,
        ).truncation_retries < max_retries),
        final(state).truncation_retries == old(state).truncation_retries + (if r {
            1int
        } else {
            0int
        }),
{
    let needs = matches!(result.stop_reason, Some(StopReason::MaxTokens))
        && result.has_incomplete_tool_calls;
    if needs && max_retries > 0 && state.truncation_retries < max_retries {
        state.truncation_retries = state.truncation_retries + 1;
        true
    } else {
        false
    }
}

/// Recovery never takes more than `max_retries` retries in a run: starting
/// from no retries, the count stays at most `max_retries` whatever results
/// come back.
pub proof fn lemma_retries_bounded(before: usize, after: usize, retried: bool, max_retries: usize)
    requires
        before <= max_retries,
        retried ==> before < max_retries,
        after == before + (if retried {
            1int
        } else {
            0int
        }),
    ensures
        after <= max_retries,
{
}

/// The continuation prompt message: a user message the user does not see.
pub fn continuation_message(estimated_tokens: usize) -> (m: Message)
    ensures
        m.role == Role::User,
        m.visibility == Visibility::Internal,
        m.text@ == CONTINUATION_PROMPT@,
        m.tool_calls is None,
        m.tool_call_id is None,
        m.estimated_tokens == estimated_tokens,
{
    Message {
        role: Role::User,
        visibility: Visibility::Internal,
        text: String::from_str(CONTINUATION_PROMPT),
        tool_calls: None,
        tool_call_id: None,
        estimated_tokens,
    }
}

} // verus!
