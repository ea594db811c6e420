use awaken_runtime::json::JsonValue;
use awaken_runtime::stream::{
    map_stop_reason, map_usage, stream_output_to_llm_event, CapturedToolCall,
    CompletionTokenDetails, LlmStreamEvent, PollStep, PromptTokenDetails, ProviderStopReason,
    ProviderUsage, StopReason, StreamCollector, StreamDriver, StreamEnd, StreamEvent,
    StreamOutput, ToolCallChunk, collect_tool_call, response_result,
};

fn chunk(call_id: &str, name: &str, arguments: JsonValue) -> StreamEvent {
    StreamEvent::ToolCallChunk(ToolCallChunk {
        call_id: call_id.into(),
        fn_name: name.into(),
        arguments,
    })
}

fn empty_object_chunk(call_id: &str, name: &str) -> StreamEvent {
    chunk(call_id, name, JsonValue::Object(vec![]))
}

fn raw_chunk(call_id: &str, name: &str, raw: &str) -> StreamEvent {
    chunk(call_id, name, JsonValue::String(raw.into()))
}

fn end() -> StreamEnd {
    StreamEnd {
        captured_usage: None,
        captured_stop_reason: None,
        captured_tool_calls: None,
        captured_first_text: None,
    }
}

fn usage(prompt: i32, completion: i32, total: i32) -> ProviderUsage {
    ProviderUsage {
        prompt_tokens: Some(prompt),
        completion_tokens: Some(completion),
        total_tokens: Some(total),
        prompt_tokens_details: None,
        completion_tokens_details: None,
    }
}

#[test]
fn text_chunks_accumulate() {
    let mut c = StreamCollector::new();
    let o1 = c.process(StreamEvent::Chunk("Hello ".into()));
    assert!(matches!(o1, StreamOutput::TextDelta(ref s) if s == "Hello "));
    let o2 = c.process(StreamEvent::Chunk("world".into()));
    assert!(matches!(o2, StreamOutput::TextDelta(ref s) if s == "world"));
    assert_eq!(c.finish().text, "Hello world");
}

#[test]
fn tool_call_chunks_accumulate() {
    let mut c = StreamCollector::new();
    let o1 = c.process(empty_object_chunk("c1", "search"));
    assert!(matches!(o1, StreamOutput::ToolCallStart { ref id, ref name } if id == "c1" && name == "search"));
    let result = c.finish();
    assert_eq!(result.tool_calls.len(), 1);
    assert_eq!(result.tool_calls[0].name, "search");
}

#[test]
fn truncated_tool_call_json_dropped() {
    let mut c = StreamCollector::new();
    c.process(raw_chunk("c1", "search", r#"{"query": "rust"#));
    let result = c.finish();
    assert!(result.tool_calls.is_empty());
    assert!(result.has_incomplete_tool_calls);
}

#[test]
fn captured_end_overrides_streamed_text() {
    let mut c = StreamCollector::new();
    c.process(StreamEvent::Chunk("partial".into()));
    c.process(StreamEvent::End(StreamEnd { captured_first_text: Some("final text".into()), ..end() }));
    assert_eq!(c.finish().text, "final text");
}

#[test]
fn usage_mapped_from_end_event() {
    let mut c = StreamCollector::new();
    c.process(StreamEvent::End(StreamEnd { captured_usage: Some(usage(100, 50, 150)), ..end() }));
    let u = c.finish().usage.unwrap();
    assert_eq!(u.prompt_tokens, Some(100));
    assert_eq!(u.completion_tokens, Some(50));
    assert_eq!(u.total_tokens, Some(150));
}

#[test]
fn finish_with_no_events_returns_empty() {
    let result = StreamCollector::new().finish();
    assert!(result.text.is_empty());
    assert!(result.tool_calls.is_empty());
    assert!(result.usage.is_none());
    assert!(result.stop_reason.is_none());
    assert!(!result.has_incomplete_tool_calls);
}

#[test]
fn collector_accumulates_text_deltas() {
    let mut c = StreamCollector::new();
    for piece in ["The ", "quick ", "brown ", "fox"] {
        let out = c.process(StreamEvent::Chunk(piece.into()));
        assert!(matches!(out, StreamOutput::TextDelta(ref s) if s == piece));
    }
    assert_eq!(c.finish().text, "The quick brown fox");
}

#[test]
fn collector_tracks_tool_call_start_and_delta() {
    let mut c = StreamCollector::new();
    let o1 = c.process(empty_object_chunk("tc1", "get_weather"));
    assert!(matches!(o1, StreamOutput::ToolCallStart { ref id, ref name } if id == "tc1" && name == "get_weather"));
    let city = JsonValue::Object(vec![("city".into(), JsonValue::String("London".into()))]);
    let o2 = c.process(chunk("tc1", "get_weather", city));
    assert!(matches!(o2, StreamOutput::ToolCallDelta { ref id, .. } if id == "tc1"));
    let result = c.finish();
    assert_eq!(result.tool_calls.len(), 1);
    assert_eq!(result.tool_calls[0].name, "get_weather");
    assert_eq!(result.tool_calls[0].arguments_json, r#"{"city":"London"}"#);
}

#[test]
fn collector_handles_usage_event() {
    let mut c = StreamCollector::new();
    c.process(StreamEvent::End(StreamEnd { captured_usage: Some(usage(200, 80, 280)), ..end() }));
    let u = c.finish().usage.expect("usage should be present");
    assert_eq!(u.prompt_tokens, Some(200));
    assert_eq!(u.completion_tokens, Some(80));
    assert_eq!(u.total_tokens, Some(280));
    assert!(u.cache_read_tokens.is_none());
    assert!(u.thinking_tokens.is_none());
}

#[test]
fn collector_handles_stop_event() {
    let mut c = StreamCollector::new();
    c.process(StreamEvent::End(StreamEnd {
        captured_stop_reason: Some(ProviderStopReason::Completed),
        ..end()
    }));
    assert_eq!(c.finish().stop_reason, Some(StopReason::EndTurn));
}

#[test]
fn collector_drops_truncated_tool_calls() {
    let mut c = StreamCollector::new();
    c.process(raw_chunk("valid", "search", r#"{"q":"hello"}"#));
    c.process(raw_chunk("bad", "calc", r#"{"expr": "2+"#));
    let result = c.finish();
    assert_eq!(result.tool_calls.len(), 1);
    assert_eq!(result.tool_calls[0].id, "valid");
    assert!(result.has_incomplete_tool_calls);
}

#[test]
fn collector_preserves_tool_call_order() {
    let mut c = StreamCollector::new();
    for (i, name) in ["alpha", "beta", "gamma"].iter().enumerate() {
        c.process(empty_object_chunk(&format!("c{i}"), name));
    }
    let result = c.finish();
    assert_eq!(result.tool_calls.len(), 3);
    assert_eq!(result.tool_calls[0].name, "alpha");
    assert_eq!(result.tool_calls[1].name, "beta");
    assert_eq!(result.tool_calls[2].name, "gamma");
}

#[test]
fn collector_nameless_tool_call_dropped() {
    let mut c = StreamCollector::new();
    c.process(raw_chunk("c1", "", r#"{"x":1}"#));
    let result = c.finish();
    assert!(result.tool_calls.is_empty());
    assert!(result.has_incomplete_tool_calls);
}

#[test]
fn collector_reasoning_delta_not_accumulated_in_text() {
    let mut c = StreamCollector::new();
    c.process(StreamEvent::Chunk("visible".into()));
    let out = c.process(StreamEvent::ReasoningChunk("thinking...".into()));
    assert!(matches!(out, StreamOutput::ReasoningDelta(ref s) if s == "thinking..."));
    assert_eq!(c.finish().text, "visible");
}

#[test]
fn collector_start_event_emits_none() {
    let mut c = StreamCollector::new();
    assert!(matches!(c.process(StreamEvent::Start), StreamOutput::Empty));
}

#[test]
fn collector_end_captured_tool_calls_override_streamed() {
    let mut c = StreamCollector::new();
    c.process(empty_object_chunk("streamed", "old_tool"));
    c.process(StreamEvent::End(StreamEnd {
        captured_tool_calls: Some(vec![CapturedToolCall {
            call_id: "captured".into(),
            fn_name: "new_tool".into(),
            arguments: JsonValue::Object(vec![("a".into(), JsonValue::Number("1".into()))]),
        }]),
        ..end()
    }));
    let result = c.finish();
    assert_eq!(result.tool_calls.len(), 1);
    assert_eq!(result.tool_calls[0].name, "new_tool");
    assert_eq!(result.tool_calls[0].id, "captured");
    assert_eq!(result.tool_calls[0].arguments_json, r#"{"a":1}"#);
}

#[test]
fn collector_handles_string_valued_accumulated_tool_args() {
    let mut c = StreamCollector::new();
    let o1 = c.process(raw_chunk("tc1", "calculator", ""));
    assert!(matches!(o1, StreamOutput::ToolCallStart { ref name, .. } if name == "calculator"));
    let o2 = c.process(raw_chunk("tc1", "calculator", r#"{"ex"#));
    assert!(matches!(o2, StreamOutput::ToolCallDelta { ref id, ref args_delta } if id == "tc1" && args_delta == r#"{"ex"#));
    let o3 = c.process(raw_chunk("tc1", "calculator", r#"{"expression":"137*42"}"#));
    assert!(matches!(o3, StreamOutput::ToolCallDelta { ref id, ref args_delta } if id == "tc1" && args_delta == r#"pression":"137*42"}"#));
    let result = c.finish();
    assert_eq!(result.tool_calls.len(), 1);
    assert_eq!(result.tool_calls[0].name, "calculator");
    assert_eq!(result.tool_calls[0].arguments_json, r#"{"expression":"137*42"}"#);
}

#[test]
fn collector_emits_initial_object_args_after_tool_call_start() {
    let mut c = StreamCollector::new();
    let args = JsonValue::Object(vec![("prompt".into(), JsonValue::String("build a dashboard".into()))]);
    let start = c.process(chunk("tc1", "render_openui_ui", args));
    assert!(matches!(start, StreamOutput::ToolCallStart { ref id, ref name } if id == "tc1" && name == "render_openui_ui"));
    let delta = c.take_pending_output().expect("initial tool arguments should be preserved");
    assert!(matches!(delta, StreamOutput::ToolCallDelta { ref id, ref args_delta }
        if id == "tc1" && args_delta == r#"{"prompt":"build a dashboard"}"#));
    assert!(c.take_pending_output().is_none());
    let result = c.finish();
    assert_eq!(result.tool_calls.len(), 1);
    assert_eq!(result.tool_calls[0].name, "render_openui_ui");
    assert_eq!(result.tool_calls[0].arguments_json, r#"{"prompt":"build a dashboard"}"#);
}

#[test]
fn collector_replays_buffered_args_when_tool_name_arrives_late() {
    let mut c = StreamCollector::new();
    let first = c.process(raw_chunk("tc1", "", r#"{"prompt":"late"}"#));
    assert!(matches!(first, StreamOutput::Empty));
    assert!(c.take_pending_output().is_none());
    let second = c.process(raw_chunk("tc1", "render_openui_ui", r#"{"prompt":"late"}"#));
    assert!(matches!(second, StreamOutput::ToolCallStart { ref id, ref name } if id == "tc1" && name == "render_openui_ui"));
    let delta = c.take_pending_output().expect("buffered arguments should be replayed after ToolCallStart");
    assert!(matches!(delta, StreamOutput::ToolCallDelta { ref id, ref args_delta }
        if id == "tc1" && args_delta == r#"{"prompt":"late"}"#));
}

#[test]
fn empty_arguments_become_null() {
    let mut c = StreamCollector::new();
    c.process(raw_chunk("c1", "ping", ""));
    let result = c.finish();
    assert_eq!(result.tool_calls.len(), 1);
    assert_eq!(result.tool_calls[0].arguments_json, "null");
    assert!(!result.has_incomplete_tool_calls);
}

#[test]
fn take_usage_yields_once() {
    let mut c = StreamCollector::new();
    c.process(StreamEvent::End(StreamEnd { captured_usage: Some(usage(1, 2, 3)), ..end() }));
    assert!(c.end_seen());
    assert_eq!(c.take_usage().unwrap().total_tokens, Some(3));
    assert!(c.take_usage().is_none());
}

#[test]
fn stop_reason_mapping() {
    assert_eq!(map_stop_reason(&ProviderStopReason::Completed), Some(StopReason::EndTurn));
    assert_eq!(map_stop_reason(&ProviderStopReason::MaxTokens), Some(StopReason::MaxTokens));
    assert_eq!(map_stop_reason(&ProviderStopReason::ToolCall), Some(StopReason::ToolUse));
}

#[test]
fn stop_reason_content_filter_maps_to_none() {
    assert_eq!(map_stop_reason(&ProviderStopReason::ContentFilter), None);
}

#[test]
fn stop_reason_other_maps_to_none() {
    assert_eq!(map_stop_reason(&ProviderStopReason::Other), None);
}

#[test]
fn stop_reason_stop_sequence_maps_correctly() {
    assert_eq!(map_stop_reason(&ProviderStopReason::StopSequence), Some(StopReason::StopSequence));
}

#[test]
fn map_usage_handles_all_fields() {
    let provider = ProviderUsage {
        prompt_tokens: Some(100),
        completion_tokens: Some(50),
        total_tokens: Some(150),
        prompt_tokens_details: Some(PromptTokenDetails {
            cached_tokens: Some(20),
            cache_creation_tokens: Some(10),
        }),
        completion_tokens_details: Some(CompletionTokenDetails { reasoning_tokens: Some(5) }),
    };
    let u = map_usage(&provider);
    assert_eq!(u.prompt_tokens, Some(100));
    assert_eq!(u.completion_tokens, Some(50));
    assert_eq!(u.total_tokens, Some(150));
    assert_eq!(u.cache_read_tokens, Some(20));
    assert_eq!(u.cache_creation_tokens, Some(10));
    assert_eq!(u.thinking_tokens, Some(5));
}

#[test]
fn stream_output_maps_to_llm_events() {
    assert!(matches!(
        stream_output_to_llm_event(StreamOutput::TextDelta("hi".into())),
        Some(LlmStreamEvent::TextDelta(ref s)) if s == "hi"
    ));
    assert!(stream_output_to_llm_event(StreamOutput::Empty).is_none());
}

#[test]
fn driver_emits_deferred_args_then_stop() {
    let mut d = StreamDriver::new();
    assert!(matches!(d.poll(), PollStep::Pull));
    let args = JsonValue::Object(vec![("q".into(), JsonValue::String("x".into()))]);
    let first = d.on_event(chunk("c1", "search", args));
    assert!(matches!(first, Some(LlmStreamEvent::ToolCallStart { ref id, ref name }) if id == "c1" && name == "search"));
    assert!(matches!(d.poll(), PollStep::Emit(LlmStreamEvent::ToolCallDelta { ref args_delta, .. }) if args_delta == r#"{"q":"x"}"#));
    assert!(matches!(d.poll(), PollStep::Pull));
    let at_end = d.on_event(StreamEvent::End(StreamEnd {
        captured_stop_reason: Some(ProviderStopReason::ToolCall),
        ..end()
    }));
    assert!(matches!(at_end, Some(LlmStreamEvent::Stop(StopReason::ToolUse))));
    assert!(matches!(d.poll(), PollStep::Pull));
}

#[test]
fn driver_reports_usage_before_stop() {
    let mut d = StreamDriver::new();
    let at_end = d.on_event(StreamEvent::End(StreamEnd { captured_usage: Some(usage(4, 5, 9)), ..end() }));
    assert!(matches!(at_end, Some(LlmStreamEvent::Usage(ref u)) if u.total_tokens == Some(9)));
    assert!(matches!(d.poll(), PollStep::Emit(LlmStreamEvent::Stop(StopReason::EndTurn))));
    assert!(matches!(d.poll(), PollStep::Pull));
}

#[test]
fn collect_tool_call_follows_the_classification() {
    let ok = collect_tool_call("c1".into(), "search".into(), r#"{"q":1}"#.into(), Some(false)).unwrap();
    assert_eq!(ok.arguments_json, r#"{"q":1}"#);
    let empty = collect_tool_call("c2".into(), "ping".into(), String::new(), None).unwrap();
    assert_eq!(empty.arguments_json, "null");
    assert!(collect_tool_call("c3".into(), "calc".into(), "{".into(), None).is_none());
    assert!(collect_tool_call("c4".into(), "calc".into(), "null".into(), Some(true)).is_none());
    assert!(collect_tool_call("c5".into(), String::new(), "{}".into(), Some(false)).is_none());
}

#[test]
fn tool_call_delta_is_cut_at_the_held_byte_length() {
    let mut c = StreamCollector::new();
    c.process(raw_chunk("tc1", "echo", "ab"));
    let next = raw_chunk("tc1", "echo", "\u{e9}\u{e9}");
    assert!(c.accepts(&next));
    let out = c.process(next);
    assert!(matches!(out, StreamOutput::ToolCallDelta { ref args_delta, .. } if args_delta == "\u{e9}"));
    let cut = raw_chunk("tc1", "echo", "a\u{e9}\u{e9}");
    assert!(!c.accepts(&cut));
    let mut d = StreamDriver::new();
    assert!(d.accepts(&raw_chunk("tc2", "echo", "{}")));
    d.on_event(raw_chunk("tc2", "echo", "ab"));
    assert!(!d.accepts(&raw_chunk("tc2", "echo", "x\u{e9}")));
}

#[test]
fn whole_response_has_no_text_when_empty() {
    let calls = vec![CapturedToolCall {
        call_id: "c1".into(),
        fn_name: "calc".into(),
        arguments: JsonValue::Object(vec![("a".into(), JsonValue::Number("1".into()))]),
    }];
    let r = response_result(None, calls, &usage(3, 4, 7), Some(ProviderStopReason::ToolCall));
    assert_eq!(r.text, "");
    assert_eq!(r.tool_calls.len(), 1);
    assert_eq!(r.tool_calls[0].arguments_json, r#"{"a":1}"#);
    assert_eq!(r.usage.unwrap().total_tokens, Some(7));
    assert_eq!(r.stop_reason, Some(StopReason::ToolUse));
    assert!(!r.has_incomplete_tool_calls);
    let t = response_result(Some("hi".into()), vec![], &usage(1, 1, 2), None);
    assert_eq!(t.text, "hi");
    assert!(t.stop_reason.is_none());
}
