use awaken_runtime::execution::{
    tool_not_found_message, DecisionReplayPolicy, ParallelToolExecutor, SequentialToolExecutor,
    ToolCallOutcome, ToolExecutorError,
};
use awaken_runtime::inference::{
    classify_inference_error, classify_lowered, inference_timeout, InferenceExecutionError,
};
use awaken_runtime::mock::{MockLlmExecutor, MOCK_DEFAULT_RESPONSE};
use awaken_runtime::recovery::{continuation_message, should_retry, TruncationState, CONTINUATION_PROMPT};
use awaken_runtime::message::{Role, Visibility};
use awaken_runtime::retry::{
    is_retryable, AttemptOutcome, LlmRetryPolicy, RetryAction, RetryConfigKey, RetryDriver,
};
use awaken_runtime::stream::{StopReason, StreamResult};

// -- Mock executor --

#[test]
fn name_returns_mock() {
    let executor = MockLlmExecutor::new();
    assert_eq!(executor.name(), "mock");
}

#[test]
fn mock_default_response() {
    let mut executor = MockLlmExecutor::default();
    let r = executor.next_response();
    assert!(r.contains("mock assistant"));
    assert_eq!(r, MOCK_DEFAULT_RESPONSE);
}

#[test]
fn mock_cycles_through_responses() {
    let mut executor = MockLlmExecutor::new().with_responses(vec!["first".into(), "second".into()]);
    assert_eq!(executor.next_response(), "first");
    assert_eq!(executor.next_response(), "second");
    assert_eq!(executor.next_response(), "first");
}

// -- Retry policy --

#[test]
fn default_policy_values() {
    let policy = LlmRetryPolicy::default();
    assert_eq!(policy.max_retries, 2);
    assert!(policy.fallback_models.is_empty());
}

#[test]
fn no_retry_policy_values() {
    let policy = LlmRetryPolicy::no_retry();
    assert_eq!(policy.max_retries, 0);
    assert!(policy.fallback_models.is_empty());
}

#[test]
fn builder_methods_chain() {
    let policy = LlmRetryPolicy::default()
        .with_max_retries(5)
        .with_fallback_model("model-a")
        .with_fallback_model("model-b");
    assert_eq!(policy.max_retries, 5);
    assert_eq!(policy.fallback_models, vec!["model-a", "model-b"]);
}

#[test]
fn rate_limit_error_is_retryable() {
    assert!(is_retryable(&InferenceExecutionError::RateLimited("429".into())));
}

#[test]
fn server_error_is_retryable() {
    assert!(is_retryable(&InferenceExecutionError::Provider("500 internal".into())));
}

#[test]
fn timeout_error_is_retryable() {
    assert!(is_retryable(&InferenceExecutionError::Timeout("timed out".into())));
}

#[test]
fn cancelled_error_is_not_retryable() {
    assert!(!is_retryable(&InferenceExecutionError::Cancelled));
}

#[test]
fn retry_config_key_name() {
    assert_eq!(RetryConfigKey::KEY, "retry");
}

#[test]
fn retry_driver_retries_then_falls_back_then_gives_up() {
    let policy = LlmRetryPolicy::default().with_max_retries(1).with_fallback_model("b");
    let (mut d, first) = RetryDriver::start(&policy);
    assert_eq!(first, RetryAction::Attempt { model: 0 });
    let fail = AttemptOutcome::Failed { retryable: true };
    assert_eq!(d.on_outcome(fail), RetryAction::Attempt { model: 0 });
    assert_eq!(d.on_outcome(fail), RetryAction::Attempt { model: 1 });
    assert_eq!(d.on_outcome(fail), RetryAction::Attempt { model: 1 });
    assert_eq!(d.on_outcome(fail), RetryAction::ReturnError);
}

#[test]
fn retry_driver_success_returns_success() {
    let (mut d, _) = RetryDriver::start(&LlmRetryPolicy::default());
    assert_eq!(d.on_outcome(AttemptOutcome::Failed { retryable: true }), RetryAction::Attempt { model: 0 });
    assert_eq!(d.on_outcome(AttemptOutcome::Succeeded), RetryAction::ReturnSuccess);
}

#[test]
fn retry_driver_non_retryable_stops_at_once() {
    let (mut d, _) = RetryDriver::start(&LlmRetryPolicy::default());
    assert_eq!(d.on_outcome(AttemptOutcome::Failed { retryable: false }), RetryAction::ReturnError);
}

#[test]
fn retry_driver_no_retry_single_attempt() {
    let (mut d, first) = RetryDriver::start(&LlmRetryPolicy::no_retry());
    assert_eq!(first, RetryAction::Attempt { model: 0 });
    assert_eq!(d.on_outcome(AttemptOutcome::Failed { retryable: true }), RetryAction::ReturnError);
}

// -- Tool executors --

#[test]
fn executor_names() {
    assert_eq!(SequentialToolExecutor.name(), "sequential");
    assert_eq!(ParallelToolExecutor::streaming().name(), "parallel_streaming");
    assert_eq!(ParallelToolExecutor::batch_approval().name(), "parallel_batch_approval");
}

#[test]
fn parallel_default_is_streaming() {
    let executor = ParallelToolExecutor::default();
    assert_eq!(executor.name(), "parallel_streaming");
    assert_eq!(executor.decision_replay_policy(), DecisionReplayPolicy::Immediate);
}

#[test]
fn parallel_batch_approval_policy() {
    let executor = ParallelToolExecutor::batch_approval();
    assert_eq!(executor.decision_replay_policy(), DecisionReplayPolicy::BatchAllSuspended);
    assert!(executor.requires_conflict_check());
}

#[test]
fn parallel_streaming_policy() {
    let executor = ParallelToolExecutor::streaming();
    assert_eq!(executor.decision_replay_policy(), DecisionReplayPolicy::Immediate);
    assert!(executor.requires_conflict_check());
}

#[test]
fn tool_executor_error_display() {
    let err = ToolExecutorError::Cancelled;
    assert!(err.message().contains("cancelled"));
    let err2 = ToolExecutorError::Failed("some reason".into());
    assert!(err2.message().contains("some reason"));
    assert_eq!(err2.message(), "tool execution failed: some reason");
}

#[test]
fn sequential_requires_incremental_state() {
    let executor = SequentialToolExecutor;
    assert!(executor.requires_incremental_state());
}

#[test]
fn parallel_does_not_require_incremental_state() {
    let executor = ParallelToolExecutor::streaming();
    assert!(!executor.requires_incremental_state());
    let batch = ParallelToolExecutor::batch_approval();
    assert!(!batch.requires_incremental_state());
}

#[test]
fn sequential_stops_after_first_suspension() {
    let ex = SequentialToolExecutor;
    assert_eq!(ex.next_call(2, &[]), Some(0));
    assert_eq!(ex.next_call(2, &[ToolCallOutcome::Suspended]), None);
}

#[test]
fn sequential_failure_does_not_stop_execution() {
    let ex = SequentialToolExecutor;
    assert_eq!(ex.next_call(2, &[ToolCallOutcome::Failed]), Some(1));
    assert_eq!(ex.next_call(2, &[ToolCallOutcome::Failed, ToolCallOutcome::Succeeded]), None);
}

#[test]
fn sequential_suspension_in_middle_stops_remaining() {
    let ex = SequentialToolExecutor;
    assert_eq!(ex.next_call(3, &[ToolCallOutcome::Succeeded]), Some(1));
    assert_eq!(ex.next_call(3, &[ToolCallOutcome::Succeeded, ToolCallOutcome::Suspended]), None);
}

#[test]
fn sequential_empty_calls() {
    assert_eq!(SequentialToolExecutor.next_call(0, &[]), None);
}

#[test]
fn unknown_tool_message() {
    assert_eq!(tool_not_found_message("nonexistent"), "tool 'nonexistent' not found");
}

// -- Error classification --

#[test]
fn status_codes_classify_errors() {
    assert_eq!(
        classify_inference_error(Some(429), "slow down".into()),
        InferenceExecutionError::RateLimited("slow down".into())
    );
    assert_eq!(classify_inference_error(Some(408), "t".into()), InferenceExecutionError::Timeout("t".into()));
    assert_eq!(classify_inference_error(Some(504), "t".into()), InferenceExecutionError::Timeout("t".into()));
    assert_eq!(classify_inference_error(Some(503), "x".into()), InferenceExecutionError::Provider("x".into()));
    assert_eq!(classify_inference_error(Some(400), "rate".into()), InferenceExecutionError::Provider("rate".into()));
}

#[test]
fn messages_classify_errors_without_status() {
    assert_eq!(
        classify_inference_error(None, "Too Many Requests".into()),
        InferenceExecutionError::RateLimited("Too Many Requests".into())
    );
    assert_eq!(
        classify_inference_error(None, "Request TIMED OUT".into()),
        InferenceExecutionError::Timeout("Request TIMED OUT".into())
    );
    assert_eq!(
        classify_inference_error(None, "model overloaded".into()),
        InferenceExecutionError::Provider("model overloaded".into())
    );
    assert_eq!(
        classify_inference_error(None, "something else".into()),
        InferenceExecutionError::Provider("something else".into())
    );
}

#[test]
fn timeout_error_message() {
    assert_eq!(inference_timeout(120), InferenceExecutionError::Timeout("inference timeout after 120s".into()));
}

// -- Truncation recovery --

fn result(stop: Option<StopReason>, incomplete: bool) -> StreamResult {
    StreamResult { text: String::new(), tool_calls: vec![], usage: None, stop_reason: stop, has_incomplete_tool_calls: incomplete }
}

fn max_tokens_with_incomplete() -> StreamResult {
    result(Some(StopReason::MaxTokens), true)
}

#[test]
fn triggers_retry_on_max_tokens_with_incomplete_tools() {
    let mut state = TruncationState::new();
    assert!(should_retry(&max_tokens_with_incomplete(), &mut state, 3));
    assert_eq!(state.truncation_retries, 1);
}

#[test]
fn no_retry_on_end_turn() {
    let mut state = TruncationState::new();
    assert!(!should_retry(&result(Some(StopReason::EndTurn), false), &mut state, 3));
    assert_eq!(state.truncation_retries, 0);
}

#[test]
fn no_retry_when_tools_are_complete() {
    let mut state = TruncationState::new();
    assert!(!should_retry(&result(Some(StopReason::MaxTokens), false), &mut state, 3));
    assert_eq!(state.truncation_retries, 0);
}

#[test]
fn no_retry_on_tool_use_stop() {
    let mut state = TruncationState::new();
    assert!(!should_retry(&result(Some(StopReason::ToolUse), false), &mut state, 3));
    assert_eq!(state.truncation_retries, 0);
}

#[test]
fn no_retry_when_stop_reason_is_none() {
    let mut state = TruncationState::new();
    assert!(!should_retry(&result(None, false), &mut state, 3));
    assert_eq!(state.truncation_retries, 0);
}

#[test]
fn no_retry_when_max_retries_is_zero() {
    let mut state = TruncationState::new();
    assert!(!should_retry(&max_tokens_with_incomplete(), &mut state, 0));
    assert_eq!(state.truncation_retries, 0);
}

#[test]
fn respects_max_retries() {
    let mut state = TruncationState::new();
    for i in 0..3 {
        assert!(should_retry(&max_tokens_with_incomplete(), &mut state, 3), "retry {i} should succeed");
    }
    assert!(!should_retry(&max_tokens_with_incomplete(), &mut state, 3));
    assert_eq!(state.truncation_retries, 3);
}

#[test]
fn counter_increments_only_on_actual_retry() {
    let mut state = TruncationState::new();
    should_retry(&result(Some(StopReason::EndTurn), false), &mut state, 3);
    assert_eq!(state.truncation_retries, 0);
    should_retry(&max_tokens_with_incomplete(), &mut state, 3);
    assert_eq!(state.truncation_retries, 1);
    should_retry(&result(Some(StopReason::EndTurn), false), &mut state, 3);
    assert_eq!(state.truncation_retries, 1);
}

#[test]
fn continuation_message_text_is_the_prompt() {
    let m = continuation_message(10);
    assert_eq!(m.role, Role::User);
    assert_eq!(m.visibility, Visibility::Internal);
    assert_eq!(m.text, CONTINUATION_PROMPT);
    assert!(m.text.contains("cut off"));
}

#[test]
fn no_retry_when_max_tokens_but_no_incomplete_tools() {
    let mut state = TruncationState::new();
    assert!(!should_retry(&result(Some(StopReason::MaxTokens), false), &mut state, 3));
    assert_eq!(state.truncation_retries, 0);
}

#[test]
fn counter_not_incremented_on_non_retry() {
    let mut state = TruncationState::new();
    assert!(!should_retry(&result(Some(StopReason::EndTurn), false), &mut state, 3));
    assert!(!should_retry(&result(Some(StopReason::ToolUse), false), &mut state, 3));
    assert!(!should_retry(&result(None, false), &mut state, 3));
    assert!(!should_retry(&result(Some(StopReason::MaxTokens), false), &mut state, 3));
    assert_eq!(state.truncation_retries, 0);
}

#[test]
fn truncation_then_normal_end() {
    let mut state = TruncationState::new();
    assert!(should_retry(&max_tokens_with_incomplete(), &mut state, 3));
    assert_eq!(state.truncation_retries, 1);
    assert!(!should_retry(&result(Some(StopReason::EndTurn), false), &mut state, 3));
    assert_eq!(state.truncation_retries, 1);
}

#[test]
fn truncation_then_tool_use() {
    let mut state = TruncationState::new();
    assert!(should_retry(&max_tokens_with_incomplete(), &mut state, 3));
    assert!(!should_retry(&result(Some(StopReason::ToolUse), false), &mut state, 3));
    assert_eq!(state.truncation_retries, 1);
}

#[test]
fn exhaust_retries_then_truncation_is_refused() {
    let max = 3;
    let mut state = TruncationState::new();
    for _ in 0..max {
        assert!(should_retry(&max_tokens_with_incomplete(), &mut state, max));
    }
    assert!(!should_retry(&max_tokens_with_incomplete(), &mut state, max));
    assert!(!should_retry(&max_tokens_with_incomplete(), &mut state, max));
    assert_eq!(state.truncation_retries, max);
}

#[test]
fn continuation_message_is_internal() {
    let msg = continuation_message(0);
    assert_eq!(msg.visibility, Visibility::Internal);
    assert_eq!(msg.role, Role::User);
}

#[test]
fn continuation_message_mentions_token_limit() {
    assert!(continuation_message(0).text.contains("output token limit"));
}

#[test]
fn continuation_message_asks_to_continue() {
    assert!(continuation_message(0).text.contains("Continue"));
}

#[test]
fn continuation_message_is_deterministic() {
    let a = continuation_message(0);
    let b = continuation_message(0);
    assert_eq!(a.text, b.text);
    assert_eq!(a.visibility, b.visibility);
    assert_eq!(a.role, b.role);
}

// -- Provider error classification as the executor maps provider errors --

fn internal(msg: &str) -> InferenceExecutionError {
    classify_inference_error(None, format!("Internal error: {msg}"))
}

#[test]
fn map_error_rate_limited_429() {
    assert!(matches!(internal("server returned 429"), InferenceExecutionError::RateLimited(_)));
}

#[test]
fn map_error_rate_word() {
    assert!(matches!(internal("rate limit exceeded"), InferenceExecutionError::RateLimited(_)));
}

#[test]
fn map_error_timeout() {
    assert!(matches!(internal("connection timeout"), InferenceExecutionError::Timeout(_)));
}

#[test]
fn map_error_timed_out() {
    assert!(matches!(internal("request timed out"), InferenceExecutionError::Timeout(_)));
}

#[test]
fn map_error_generic() {
    assert!(matches!(internal("something went wrong"), InferenceExecutionError::Provider(_)));
}

#[test]
fn map_error_too_many_requests() {
    assert!(matches!(internal("Too Many Requests"), InferenceExecutionError::RateLimited(_)));
}

#[test]
fn map_error_overloaded() {
    assert!(matches!(internal("server overloaded"), InferenceExecutionError::Provider(_)));
}

#[test]
fn map_error_503_string() {
    assert!(matches!(internal("503 Service Unavailable"), InferenceExecutionError::Provider(_)));
}

#[test]
fn map_error_http_429_structured() {
    assert!(matches!(
        classify_inference_error(Some(429), "rate limited".into()),
        InferenceExecutionError::RateLimited(_)
    ));
}

#[test]
fn map_error_http_500_structured() {
    assert!(matches!(classify_inference_error(Some(500), "oops".into()), InferenceExecutionError::Provider(_)));
}

#[test]
fn map_error_http_504_structured() {
    assert!(matches!(classify_inference_error(Some(504), "timeout".into()), InferenceExecutionError::Timeout(_)));
}

#[test]
fn map_error_preserves_full_chain() {
    match internal("rate limit exceeded") {
        InferenceExecutionError::RateLimited(m) => assert!(m.contains("rate limit exceeded")),
        other => panic!("expected RateLimited, got {other:?}"),
    }
}

#[test]
fn map_error_web_adapter_call_429() {
    assert!(matches!(classify_inference_error(Some(429), "adapter".into()), InferenceExecutionError::RateLimited(_)));
}

#[test]
fn map_error_web_model_call_429() {
    assert!(matches!(classify_inference_error(Some(429), "model".into()), InferenceExecutionError::RateLimited(_)));
}

#[test]
fn map_error_web_adapter_call_503() {
    assert!(matches!(classify_inference_error(Some(503), "adapter".into()), InferenceExecutionError::Provider(_)));
}

#[test]
fn map_error_web_model_call_504() {
    assert!(matches!(classify_inference_error(Some(504), "model".into()), InferenceExecutionError::Timeout(_)));
}

#[test]
fn map_error_web_adapter_call_non_status_error_falls_through() {
    assert!(matches!(internal("connection reset"), InferenceExecutionError::Provider(_)));
}

#[test]
fn classify_lowered_reads_the_lowered_text() {
    assert_eq!(
        classify_lowered(None, "Rate Limit".into(), "rate limit"),
        InferenceExecutionError::RateLimited("Rate Limit".into())
    );
    assert_eq!(
        classify_lowered(None, "x".into(), "timed out"),
        InferenceExecutionError::Timeout("x".into())
    );
    assert_eq!(classify_lowered(Some(429), "y".into(), "y"), InferenceExecutionError::RateLimited("y".into()));
    assert_eq!(classify_lowered(None, "z".into(), "other"), InferenceExecutionError::Provider("z".into()));
}
