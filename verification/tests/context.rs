use awaken_runtime::context::{
    adjust_split_for_tool_pairs, compact_artifact, compact_tool_results, extract_previous_summary,
    find_compaction_boundary, find_split_point, render_transcript, trim_to_compaction_boundary,
    ContextTransform, ContextWindowPolicy, DefaultSummarizer, ARTIFACT_PREVIEW_MAX_LINES,
};
use awaken_runtime::message::{Message, Role, ToolCallRef, Visibility};

// Token estimate of a message: four tokens of overhead plus a token per
// four bytes of text.
fn estimate(text: &str) -> usize {
    4 + text.len() / 4
}

fn mk(role: Role, visibility: Visibility, text: &str) -> Message {
    Message {
        role,
        visibility,
        text: text.to_string(),
        tool_calls: None,
        tool_call_id: None,
        estimated_tokens: estimate(text),
    }
}

fn system(text: &str) -> Message {
    mk(Role::System, Visibility::All, text)
}

fn internal_system(text: &str) -> Message {
    mk(Role::System, Visibility::Internal, text)
}

fn user(text: &str) -> Message {
    mk(Role::User, Visibility::All, text)
}

fn assistant(text: &str) -> Message {
    mk(Role::Assistant, Visibility::All, text)
}

fn assistant_with_tool_calls(text: &str, calls: &[(&str, &str)]) -> Message {
    let mut m = mk(Role::Assistant, Visibility::All, text);
    m.tool_calls = Some(
        calls.iter().map(|(id, name)| ToolCallRef { id: id.to_string(), name: name.to_string() }).collect(),
    );
    m
}

fn tool(call_id: &str, text: &str) -> Message {
    let mut m = mk(Role::Tool, Visibility::All, text);
    m.tool_call_id = Some(call_id.to_string());
    m
}

fn policy(max_tokens: usize, min_recent: usize) -> ContextWindowPolicy {
    ContextWindowPolicy { max_context_tokens: max_tokens, max_output_tokens: 0, min_recent_messages: min_recent }
}

fn assert_no_orphaned_calls(messages: &[Message]) {
    for (i, msg) in messages.iter().enumerate() {
        if msg.role == Role::Assistant {
            if let Some(ref calls) = msg.tool_calls {
                for call in calls {
                    assert!(
                        messages[i + 1..].iter().any(|m| m.tool_call_id.as_deref() == Some(call.id.as_str())),
                        "tool call {} should have a matching result",
                        call.id
                    );
                }
            }
        }
    }
}

// -- Truncation transform --

fn truncation_preserves_all_when_under_budget_body() {
    let transform = ContextTransform::new(policy(100_000, 2));
    let out = transform.truncate(vec![system("sys"), user("hello"), assistant("hi")], 0);
    assert_eq!(out.len(), 3);
}

#[test]
fn context_truncation_preserves_all_when_under_budget() {
    truncation_preserves_all_when_under_budget_body();
}

#[test]
fn mod_truncation_preserves_all_when_under_budget() {
    truncation_preserves_all_when_under_budget_body();
}

fn truncation_keeps_system_and_recent_body() {
    let transform = ContextTransform::new(policy(50, 2));
    let mut messages = vec![system("sys")];
    for i in 0..20 {
        messages.push(user(&format!("msg {i}")));
        messages.push(assistant(&format!("reply {i}")));
    }
    let out = transform.truncate(messages, 0);
    assert!(out.len() >= 3);
    assert_eq!(out[0].role, Role::System);
}

#[test]
fn context_truncation_keeps_system_and_recent() {
    truncation_keeps_system_and_recent_body();
}

#[test]
fn mod_truncation_keeps_system_and_recent() {
    truncation_keeps_system_and_recent_body();
}

fn truncation_repairs_dangling_tool_calls_body() {
    let transform = ContextTransform::new(policy(30, 1));
    let messages = vec![
        system("sys"),
        user("old msg 1"),
        assistant_with_tool_calls("calling", &[("c1", "search")]),
        tool("c1", "result"),
        user("old msg 2"),
        assistant("old reply"),
        user("recent"),
        assistant("recent reply"),
    ];
    let out = transform.truncate(messages, 0);
    assert_no_orphaned_calls(&out);
}

#[test]
fn context_truncation_repairs_dangling_tool_calls() {
    truncation_repairs_dangling_tool_calls_body();
}

#[test]
fn mod_truncation_repairs_dangling_tool_calls() {
    truncation_repairs_dangling_tool_calls_body();
}

fn truncation_tool_pair_not_broken_body() {
    let transform = ContextTransform::new(policy(60, 1));
    let messages = vec![
        system("sys"),
        user("old"),
        assistant_with_tool_calls("calling", &[("c1", "search")]),
        tool("c1", "found"),
        user("recent"),
        assistant("reply"),
    ];
    let out = transform.truncate(messages, 0);
    assert_no_orphaned_calls(&out);
}

#[test]
fn context_truncation_tool_pair_not_broken() {
    truncation_tool_pair_not_broken_body();
}

#[test]
fn mod_truncation_tool_pair_not_broken() {
    truncation_tool_pair_not_broken_body();
}

fn truncation_with_tool_descriptors_reduces_budget_body() {
    let transform = ContextTransform::new(policy(100, 2));
    let messages = || vec![system("sys"), user("hello"), assistant("world")];
    let count_no_tools = transform.truncate(messages(), 0).len();
    // A large tool schema: 200 characters of description plus parameters.
    let tool_tokens = estimate(&"x".repeat(200)) + 40;
    let count_with_tools = transform.truncate(messages(), tool_tokens).len();
    assert!(count_with_tools <= count_no_tools);
}

#[test]
fn context_truncation_with_tool_descriptors_reduces_budget() {
    truncation_with_tool_descriptors_reduces_budget_body();
}

#[test]
fn mod_truncation_with_tool_descriptors_reduces_budget() {
    truncation_with_tool_descriptors_reduces_budget_body();
}

fn no_truncation_when_within_budget_body() {
    let transform = ContextTransform::new(policy(100_000, 2));
    let messages = vec![
        system("system prompt"),
        user("hello"),
        assistant("hi there"),
        user("how are you?"),
        assistant("doing great"),
    ];
    let texts: Vec<String> = messages.iter().map(|m| m.text.clone()).collect();
    let out = transform.truncate(messages, 0);
    assert_eq!(out.len(), texts.len());
    for (a, b) in out.iter().zip(texts.iter()) {
        assert_eq!(&a.text, b);
    }
}

#[test]
fn context_no_truncation_when_within_budget() {
    no_truncation_when_within_budget_body();
}

#[test]
fn mod_no_truncation_when_within_budget() {
    no_truncation_when_within_budget_body();
}

fn truncation_drops_oldest_history_body() {
    let transform = ContextTransform::new(policy(60, 2));
    let filler = |tag: &str| format!("{tag}:{}", "x".repeat(40));
    let messages = vec![
        system("sys"),
        user(&filler("old1")),
        assistant(&filler("old_reply1")),
        user(&filler("old2")),
        assistant(&filler("old_reply2")),
        user(&filler("recent1")),
        assistant(&filler("recent_reply1")),
    ];
    let out = transform.truncate(messages, 0);
    assert_eq!(out[0].role, Role::System);
    assert_eq!(out[0].text, "sys");
    assert!(!out.iter().any(|m| m.text.starts_with("old1:")), "oldest message should be dropped");
    assert!(out.iter().any(|m| m.text.starts_with("recent_reply1:")), "most recent message should be preserved");
}

#[test]
fn context_truncation_drops_oldest_history() {
    truncation_drops_oldest_history_body();
}

#[test]
fn mod_truncation_drops_oldest_history() {
    truncation_drops_oldest_history_body();
}

fn min_recent_always_preserved_body() {
    let transform = ContextTransform::new(policy(20, 4));
    let messages = vec![
        system("s"),
        user("a"),
        assistant("b"),
        user("c"),
        assistant("d"),
        user("e"),
        assistant("f"),
    ];
    let out = transform.truncate(messages, 0);
    let history_count = out.iter().filter(|m| m.role != Role::System).count();
    assert!(history_count >= 4, "min_recent_messages=4 but only {history_count} history messages kept");
}

#[test]
fn context_min_recent_always_preserved() {
    min_recent_always_preserved_body();
}

#[test]
fn mod_min_recent_always_preserved() {
    min_recent_always_preserved_body();
}

fn system_messages_never_truncated_body() {
    let transform = ContextTransform::new(policy(60, 1));
    let messages = vec![
        system("system prompt 1"),
        system("system prompt 2"),
        system("system prompt 3"),
        user("old1"),
        assistant("old_reply1"),
        user("old2"),
        assistant("old_reply2"),
        user("recent"),
        assistant("recent_reply"),
    ];
    let out = transform.truncate(messages, 0);
    let system_msgs: Vec<&Message> = out.iter().filter(|m| m.role == Role::System).collect();
    assert_eq!(system_msgs.len(), 3, "all system messages must be preserved");
    assert_eq!(system_msgs[0].text, "system prompt 1");
    assert_eq!(system_msgs[1].text, "system prompt 2");
    assert_eq!(system_msgs[2].text, "system prompt 3");
}

#[test]
fn context_system_messages_never_truncated() {
    system_messages_never_truncated_body();
}

#[test]
fn mod_system_messages_never_truncated() {
    system_messages_never_truncated_body();
}

#[test]
fn truncation_empty_messages() {
    let transform = ContextTransform::new(policy(100, 2));
    assert!(transform.truncate(vec![], 0).is_empty());
}

#[test]
fn truncation_system_only() {
    let transform = ContextTransform::new(policy(100, 2));
    let out = transform.truncate(vec![system("system only")], 0);
    assert_eq!(out.len(), 1);
    assert_eq!(out[0].role, Role::System);
}

#[test]
fn truncation_preserves_message_order() {
    let transform = ContextTransform::new(policy(100_000, 2));
    let messages = vec![system("sys"), user("u1"), assistant("a1"), user("u2"), assistant("a2")];
    let expected: Vec<(Role, String)> = messages.iter().map(|m| (m.role, m.text.clone())).collect();
    let out = transform.truncate(messages, 0);
    for (i, msg) in out.iter().enumerate() {
        assert_eq!(msg.role, expected[i].0);
        assert_eq!(msg.text, expected[i].1);
    }
}

#[test]
fn truncation_with_only_tool_messages() {
    let transform = ContextTransform::new(policy(100, 1));
    let messages = vec![
        system("sys"),
        user("go"),
        assistant_with_tool_calls("", &[("c1", "t")]),
        tool("c1", "result"),
    ];
    let out = transform.truncate(messages, 0);
    assert!(!out.is_empty());
    assert_eq!(out[0].role, Role::System);
}

#[test]
fn truncation_reserved_output_shrinks_budget() {
    let mut p = policy(40, 1);
    let messages = || vec![system("sys"), user("aaaa aaaa aaaa aaaa"), user("bbbb bbbb bbbb bbbb"), user("c")];
    let kept_without_reserve = ContextTransform::new(p).truncate(messages(), 0).len();
    p.max_output_tokens = 30;
    let kept_with_reserve = ContextTransform::new(p).truncate(messages(), 0).len();
    assert_eq!(kept_without_reserve, 4);
    assert!(kept_with_reserve < kept_without_reserve);
}

// -- Split points --

#[test]
fn find_split_empty_history() {
    assert_eq!(find_split_point(&[], 1000, 5), 0);
}

#[test]
fn find_split_all_within_budget() {
    let history = vec![user("Hi"), assistant("Hello!")];
    assert_eq!(find_split_point(&history, 100_000, 2), 0, "everything fits, nothing to drop");
}

#[test]
fn find_split_drops_oldest_when_tight() {
    let history: Vec<Message> = (0..20)
        .map(|i| if i % 2 == 0 { user(&format!("msg {i}")) } else { assistant(&format!("reply {i}")) })
        .collect();
    let split = find_split_point(&history, 30, 2);
    assert!(split > 0, "some messages should be dropped");
    assert!(history.len() - split >= 2, "must keep at least min_recent=2");
}

#[test]
fn find_split_respects_min_recent_even_beyond_budget() {
    let history: Vec<Message> = (0..10).map(|i| user(&format!("message {i} with padding"))).collect();
    let split = find_split_point(&history, 1, 5);
    let kept = history.len() - split;
    assert!(kept >= 5, "must keep at least min_recent=5, kept={kept}");
}

#[test]
fn find_split_min_recent_exceeds_history_len() {
    let history = vec![user("a"), assistant("b")];
    assert_eq!(find_split_point(&history, 1, 100), 0, "min_recent > len means keep all");
}

#[test]
fn adjust_split_moves_back_for_orphaned_tool_result() {
    let history = vec![
        user("a"),
        assistant_with_tool_calls("b", &[("c1", "t")]),
        tool("c1", "result"),
        user("c"),
    ];
    assert_eq!(adjust_split_for_tool_pairs(&history, 2), 1, "should include the assistant with tool calls");
}

#[test]
fn adjust_split_drops_orphaned_results_after_dropped_assistant() {
    let history = vec![
        user("a"),
        assistant_with_tool_calls("b", &[("c1", "t")]),
        tool("c1", "result"),
        user("c"),
        assistant("answer"),
    ];
    assert_eq!(adjust_split_for_tool_pairs(&history, 3), 3, "split at user boundary should be stable");
}

#[test]
fn adjust_split_handles_multiple_consecutive_tool_results() {
    let history = vec![
        user("start"),
        assistant_with_tool_calls("calling two", &[("c1", "t1"), ("c2", "t2")]),
        tool("c1", "r1"),
        tool("c2", "r2"),
        user("continue"),
    ];
    assert_eq!(adjust_split_for_tool_pairs(&history, 2), 1);
    assert_eq!(adjust_split_for_tool_pairs(&history, 3), 1);
}

#[test]
fn adjust_split_at_zero_is_noop() {
    let history = vec![user("a"), assistant("b")];
    assert_eq!(adjust_split_for_tool_pairs(&history, 0), 0);
}

#[test]
fn adjust_split_at_len_minus_one_non_tool() {
    let history = vec![user("a"), assistant("b")];
    assert_eq!(adjust_split_for_tool_pairs(&history, 1), 1);
}

#[test]
fn adjust_split_at_end_returns_len() {
    let history = vec![user("a"), assistant("b")];
    assert_eq!(adjust_split_for_tool_pairs(&history, 2), 2);
}

#[test]
fn adjust_split_backward_then_no_forward() {
    let history = vec![
        user("start"),
        assistant_with_tool_calls("calling", &[("c1", "t")]),
        tool("c1", "result"),
        user("next"),
    ];
    assert_eq!(adjust_split_for_tool_pairs(&history, 2), 1);
}

#[test]
fn adjust_split_forward_past_results_of_dropped_assistant() {
    // The first kept message is a tool result that follows another tool
    // result at the very start: moving back reaches position 0.
    let history = vec![tool("c0", "r0"), tool("c1", "r1"), user("u")];
    assert_eq!(adjust_split_for_tool_pairs(&history, 1), 0);
}

#[test]
fn find_split_with_various_history_lengths() {
    for len in 1..=30 {
        let history: Vec<Message> = (0..len)
            .map(|i| if i % 2 == 0 { user(&format!("u{i}")) } else { assistant(&format!("a{i}")) })
            .collect();
        let split = find_split_point(&history, 100_000, 2);
        assert!(split <= history.len(), "split out of range for len={len}");
        let kept = history.len() - split;
        assert!(kept >= 2.min(history.len()), "min_recent not honored for len={len}: kept={kept}");
    }
}

#[test]
fn find_split_edge_single_message() {
    let history = vec![user("only one")];
    assert_eq!(find_split_point(&history, 100_000, 1), 0);
    assert_eq!(find_split_point(&history, 1, 1), 0);
    let split = find_split_point(&history, 1, 0);
    assert!(split <= 1);
}

#[test]
fn tool_pair_preserved_across_truncation_boundary() {
    let history = vec![
        user("old stuff with lots of padding text to consume budget"),
        assistant("old reply with lots of padding text to consume budget"),
        user("trigger"),
        assistant_with_tool_calls("calling tools", &[("c1", "search"), ("c2", "read"), ("c3", "write")]),
        tool("c1", "result1"),
        tool("c2", "result2"),
        tool("c3", "result3"),
        user("final"),
    ];
    for candidate in 0..history.len() {
        let adjusted = adjust_split_for_tool_pairs(&history, candidate);
        if adjusted > 0 && adjusted < history.len() {
            assert_ne!(history[adjusted].role, Role::Tool, "adjusted split at {adjusted} should not start with Tool");
        }
    }
}

#[test]
fn context_window_policy_threshold_triggers_truncation() {
    let history: Vec<Message> =
        (0..50).map(|i| user(&format!("message number {i} with some padding text"))).collect();
    let total_tokens: usize = history.iter().map(|m| m.estimated_tokens).sum();
    let budget = total_tokens / 2;
    let split = find_split_point(&history, budget, 2);
    assert!(split > 0, "should truncate when over budget");
    let kept_tokens: usize = history[split..].iter().map(|m| m.estimated_tokens).sum();
    assert!(kept_tokens <= budget || (history.len() - split) <= 2);
}

#[test]
fn truncation_with_only_system_prompt_no_history() {
    assert_eq!(find_split_point(&[], 1000, 5), 0);
    assert_eq!(adjust_split_for_tool_pairs(&[], 0), 0);
}

#[test]
fn truncation_preserves_recent_n_messages_exactly() {
    let history: Vec<Message> = (0..10)
        .map(|i| if i % 2 == 0 { user(&format!("u{i}")) } else { assistant(&format!("a{i}")) })
        .collect();
    let split = find_split_point(&history, 1, 6);
    let kept = history.len() - split;
    assert!(kept >= 6, "should keep at least min_recent=6, got {kept}");
}

#[test]
fn mixed_message_types_truncation() {
    let history = vec![
        user("old user msg"),
        assistant("old assistant msg"),
        user("mid user msg"),
        assistant_with_tool_calls("mid tool call", &[("c1", "search")]),
        tool("c1", "mid tool result"),
        user("recent user"),
        assistant("recent assistant"),
        user("latest user"),
        assistant("latest reply"),
    ];
    let split = find_split_point(&history, 40, 2);
    assert!(split > 0, "tight budget should force truncation");
    let kept = &history[split..];
    assert!(kept.len() >= 2, "must keep min_recent=2");
    assert_ne!(kept[0].role, Role::Tool, "first kept message must not be orphaned tool result");
}

#[test]
fn very_large_message_handling() {
    let huge_text = "x".repeat(100_000);
    let history = vec![user(&huge_text), assistant("small reply"), user("another"), assistant("end")];
    assert!(history[0].estimated_tokens > 20_000, "huge message should have many tokens");
    let split = find_split_point(&history, 100, 2);
    assert!(split >= 1, "should drop the huge message");
}

#[test]
fn adjust_split_forward_drops_orphaned_results() {
    let history = vec![
        user("a"),
        assistant_with_tool_calls("calling", &[("c1", "t1"), ("c2", "t2")]),
        tool("c1", "r1"),
        tool("c2", "r2"),
        user("keep this"),
        assistant("keep reply"),
    ];
    assert_eq!(adjust_split_for_tool_pairs(&history, 2), 1, "should move back to include assistant with tool_calls");
}

#[test]
fn find_split_tool_pair_not_broken() {
    let history = vec![
        user("old1"),
        assistant("old_reply"),
        user("Do something"),
        assistant_with_tool_calls("Using tool", &[("c1", "search")]),
        tool("c1", "found it"),
        assistant("Here is the answer."),
        user("Thanks"),
        assistant("Welcome!"),
    ];
    let split = find_split_point(&history, 60, 2);
    if split < history.len() {
        assert_ne!(history[split].role, Role::Tool, "first kept message must not be an orphaned tool result");
    }
}

#[test]
fn find_split_exact_position() {
    // Estimates 5, 5, 5, 5; budget 10; two most recent fit exactly.
    let history = vec![user("aaaa"), user("bbbb"), user("cccc"), user("dddd")];
    assert_eq!(find_split_point(&history, 10, 1), 2);
    assert_eq!(find_split_point(&history, 9, 1), 3);
    assert_eq!(find_split_point(&history, 9, 3), 1);
}

// -- Compaction boundaries --

fn find_compaction_boundary_respects_tool_pairs_body() {
    let messages = vec![
        user("start"),
        assistant_with_tool_calls("", &[("c1", "search")]),
        tool("c1", "found"),
        user("next"),
        assistant("reply"),
    ];
    let b = find_compaction_boundary(&messages, 0, messages.len());
    assert!(b.is_some());
    assert!(b.unwrap() >= 3);
}

#[test]
fn context_find_compaction_boundary_respects_tool_pairs() {
    find_compaction_boundary_respects_tool_pairs_body();
}

#[test]
fn compaction_find_compaction_boundary_respects_tool_pairs() {
    find_compaction_boundary_respects_tool_pairs_body();
}

fn find_compaction_boundary_does_not_cut_open_tool_round_body() {
    let messages = vec![
        user("start"),
        assistant("reply"),
        user("next"),
        assistant_with_tool_calls("", &[("c1", "search")]),
    ];
    if let Some(b) = find_compaction_boundary(&messages, 0, messages.len()) {
        assert!(b <= 2, "boundary should not include open tool round");
    }
}

#[test]
fn context_find_compaction_boundary_does_not_cut_open_tool_round() {
    find_compaction_boundary_does_not_cut_open_tool_round_body();
}

#[test]
fn compaction_find_compaction_boundary_does_not_cut_open_tool_round() {
    find_compaction_boundary_does_not_cut_open_tool_round_body();
}

fn find_boundary_skips_open_tool_rounds_body() {
    let messages = vec![
        user("start"),
        assistant("ok"),
        user("do something"),
        assistant_with_tool_calls("", &[("c1", "search")]),
    ];
    if let Some(b) = find_compaction_boundary(&messages, 0, messages.len()) {
        assert!(b < 3, "boundary {b} must be before open tool call at idx 3");
    }
}

#[test]
fn context_find_boundary_skips_open_tool_rounds() {
    find_boundary_skips_open_tool_rounds_body();
}

#[test]
fn compaction_find_boundary_skips_open_tool_rounds() {
    find_boundary_skips_open_tool_rounds_body();
}

fn find_boundary_respects_suffix_messages_body() {
    let messages = vec![
        user("old1"),
        assistant("reply1"),
        user("old2"),
        assistant("reply2"),
        user("recent"),
        assistant("recent_reply"),
    ];
    let search_end = messages.len().saturating_sub(2);
    if let Some(b) = find_compaction_boundary(&messages, 0, search_end) {
        assert!(b < search_end, "boundary {b} must be before suffix start {search_end}");
    }
}

#[test]
fn context_find_boundary_respects_suffix_messages() {
    find_boundary_respects_suffix_messages_body();
}

#[test]
fn compaction_find_boundary_respects_suffix_messages() {
    find_boundary_respects_suffix_messages_body();
}

fn find_boundary_returns_none_when_too_few_messages_body() {
    let messages = vec![user("only message")];
    assert!(find_compaction_boundary(&messages, 0, 0).is_none(), "empty range should yield no boundary");
    let messages2 = vec![assistant_with_tool_calls("", &[("c1", "fn")])];
    assert!(
        find_compaction_boundary(&messages2, 0, messages2.len()).is_none(),
        "single open tool call should yield no boundary"
    );
}

#[test]
fn context_find_boundary_returns_none_when_too_few_messages() {
    find_boundary_returns_none_when_too_few_messages_body();
}

#[test]
fn compaction_find_boundary_returns_none_when_too_few_messages() {
    find_boundary_returns_none_when_too_few_messages_body();
}

#[test]
fn find_compaction_boundary_multiple_complete_tool_rounds() {
    let messages = vec![
        user("start"),
        assistant_with_tool_calls("", &[("c1", "search")]),
        tool("c1", "found it"),
        user("next"),
        assistant_with_tool_calls("", &[("c2", "read")]),
        tool("c2", "content"),
        user("last"),
        assistant("done"),
    ];
    let b = find_compaction_boundary(&messages, 0, messages.len());
    assert!(b.is_some());
    assert!(b.unwrap() >= 6, "boundary should be after all tool rounds");
}

#[test]
fn find_compaction_boundary_empty_range() {
    let messages = vec![user("hello"), assistant("hi")];
    assert!(find_compaction_boundary(&messages, 0, 0).is_none(), "empty range should yield no boundary");
}

#[test]
fn find_compaction_boundary_range_start_equals_end() {
    let messages = vec![user("only")];
    assert!(find_compaction_boundary(&messages, 1, 1).is_none());
}

#[test]
fn find_compaction_boundary_with_multiple_tool_calls_in_one_round() {
    let messages = vec![
        user("do things"),
        assistant_with_tool_calls("", &[("c1", "search"), ("c2", "read")]),
        tool("c1", "found"),
        tool("c2", "content"),
        user("thanks"),
    ];
    let b = find_compaction_boundary(&messages, 0, messages.len());
    assert!(b.is_some());
    assert!(b.unwrap() >= 3, "boundary should be after all tool results");
}

#[test]
fn find_compaction_boundary_partial_tool_results() {
    let messages = vec![
        user("start"),
        assistant_with_tool_calls("", &[("c1", "search"), ("c2", "read")]),
        tool("c1", "found"),
    ];
    if let Some(b) = find_compaction_boundary(&messages, 0, messages.len()) {
        assert!(b < 1, "boundary should not include incomplete tool round");
    }
}

#[test]
fn find_compaction_boundary_exact_positions() {
    let messages = vec![
        user("start"),
        assistant_with_tool_calls("", &[("c1", "search")]),
        tool("c1", "found"),
        user("next"),
    ];
    // The last position is safe once the round is closed.
    assert_eq!(find_compaction_boundary(&messages, 0, 4), Some(3));
    // Cutting after the call itself is not safe: the next message is its result.
    assert_eq!(find_compaction_boundary(&messages, 0, 2), Some(0));
    // End beyond the messages is clamped.
    assert_eq!(find_compaction_boundary(&messages, 0, 99), Some(3));
    // A start beyond the messages finds nothing.
    assert_eq!(find_compaction_boundary(&messages, 10, 20), None);
}

// -- Transcripts and summaries --

#[test]
fn render_transcript_formats_correctly() {
    let messages = vec![user("hello"), assistant("hi there")];
    let t = render_transcript(&messages);
    assert!(t.contains("[User]: hello"));
    assert!(t.contains("[Assistant]: hi there"));
}

#[test]
fn render_transcript_excludes_internal_messages() {
    let messages = vec![internal_system("you are helpful"), user("hello"), assistant("hi")];
    let t = render_transcript(&messages);
    assert!(!t.contains("you are helpful"));
    assert!(t.contains("[User]: hello"));
}

#[test]
fn render_transcript_filters_internal_messages() {
    let messages = vec![
        system("visible system"),
        internal_system("hidden internal context"),
        user("hello"),
        assistant("hi"),
        internal_system("another hidden"),
    ];
    let t = render_transcript(&messages);
    assert!(!t.contains("hidden internal context"));
    assert!(!t.contains("another hidden"));
    assert!(t.contains("[System]: visible system"));
    assert!(t.contains("[User]: hello"));
    assert!(t.contains("[Assistant]: hi"));
}

#[test]
fn render_transcript_formats_roles() {
    let messages = vec![system("sys prompt"), user("question"), assistant("answer"), tool("c1", "tool output")];
    let t = render_transcript(&messages);
    assert!(t.contains("[System]: sys prompt"));
    assert!(t.contains("[User]: question"));
    assert!(t.contains("[Assistant]: answer"));
    assert!(t.contains("[Tool]: tool output"));
}

#[test]
fn render_transcript_exact_text() {
    let messages = vec![user("a"), assistant(""), internal_system("x"), assistant("b")];
    assert_eq!(render_transcript(&messages), "[User]: a\n\n[Assistant]: b");
    assert_eq!(render_transcript(&[]), "");
}

#[test]
fn extract_previous_summary_finds_summary() {
    let messages = vec![
        internal_system("<conversation-summary>\nPrevious summary text\n</conversation-summary>"),
        user("new msg"),
    ];
    assert_eq!(extract_previous_summary(&messages).as_deref(), Some("Previous summary text"));
}

#[test]
fn extract_previous_summary_none_without_summary() {
    let messages = vec![user("hello")];
    assert!(extract_previous_summary(&messages).is_none());
}

#[test]
fn extract_previous_summary_skips_blank_and_visible() {
    let messages = vec![
        system("<conversation-summary>visible</conversation-summary>"),
        internal_system("<conversation-summary>   </conversation-summary>"),
        internal_system("prefix <conversation-summary> second </conversation-summary> suffix"),
    ];
    assert_eq!(extract_previous_summary(&messages).as_deref(), Some("second"));
}

fn trim_to_compaction_boundary_drops_pre_summary_body() {
    let mut messages = vec![
        user("old msg 1"),
        assistant("old reply"),
        internal_system("<conversation-summary>\nSummary of old messages\n</conversation-summary>"),
        user("new msg"),
        assistant("new reply"),
    ];
    trim_to_compaction_boundary(&mut messages);
    assert_eq!(messages.len(), 3);
    assert!(messages[0].text.contains("conversation-summary"));
    assert_eq!(messages[1].text, "new msg");
}

#[test]
fn context_trim_to_compaction_boundary_drops_pre_summary() {
    trim_to_compaction_boundary_drops_pre_summary_body();
}

#[test]
fn compaction_trim_to_compaction_boundary_drops_pre_summary() {
    trim_to_compaction_boundary_drops_pre_summary_body();
}

fn trim_to_compaction_boundary_noop_without_summary_body() {
    let mut messages = vec![user("hello"), assistant("hi")];
    let len_before = messages.len();
    trim_to_compaction_boundary(&mut messages);
    assert_eq!(messages.len(), len_before);
}

#[test]
fn context_trim_to_compaction_boundary_noop_without_summary() {
    trim_to_compaction_boundary_noop_without_summary_body();
}

#[test]
fn compaction_trim_to_compaction_boundary_noop_without_summary() {
    trim_to_compaction_boundary_noop_without_summary_body();
}

fn trim_to_compaction_boundary_idempotent_body() {
    let mut messages = vec![
        user("old"),
        internal_system("<conversation-summary>\nSummary\n</conversation-summary>"),
        user("new"),
    ];
    trim_to_compaction_boundary(&mut messages);
    let len_after_first = messages.len();
    trim_to_compaction_boundary(&mut messages);
    assert_eq!(messages.len(), len_after_first, "second trim should be noop");
}

#[test]
fn context_trim_to_compaction_boundary_idempotent() {
    trim_to_compaction_boundary_idempotent_body();
}

#[test]
fn compaction_trim_to_compaction_boundary_idempotent() {
    trim_to_compaction_boundary_idempotent_body();
}

#[test]
fn trim_to_compaction_boundary_uses_last_summary() {
    let mut messages = vec![
        user("old msg 1"),
        internal_system("<conversation-summary>\nFirst summary\n</conversation-summary>"),
        user("mid msg"),
        internal_system("<conversation-summary>\nSecond summary\n</conversation-summary>"),
        user("new msg"),
    ];
    trim_to_compaction_boundary(&mut messages);
    assert_eq!(messages.len(), 2);
    assert!(messages[0].text.contains("Second summary"));
    assert_eq!(messages[1].text, "new msg");
}

// -- Artifact compaction --

fn small_tool_result_not_compacted_body() {
    let small = "x".repeat(100);
    let mut messages = vec![user("go"), assistant_with_tool_calls("", &[("c1", "search")]), tool("c1", &small)];
    compact_tool_results(&mut messages);
    assert_eq!(messages[2].text, small);
}

#[test]
fn context_small_tool_result_not_compacted() {
    small_tool_result_not_compacted_body();
}

#[test]
fn compaction_small_tool_result_not_compacted() {
    small_tool_result_not_compacted_body();
}

fn large_tool_result_compacted_to_preview_body() {
    let large = "a".repeat(10_000);
    let mut messages = vec![user("go"), assistant_with_tool_calls("", &[("c1", "list_files")]), tool("c1", &large)];
    compact_tool_results(&mut messages);
    let result = &messages[2].text;
    assert!(result.len() < large.len());
    assert!(result.contains("[Content compacted:"));
    assert!(result.contains("tokens"));
    assert!(result.contains("chars"));
}

#[test]
fn context_large_tool_result_compacted_to_preview() {
    large_tool_result_compacted_to_preview_body();
}

#[test]
fn compaction_large_tool_result_compacted_to_preview() {
    large_tool_result_compacted_to_preview_body();
}

fn compact_preserves_non_tool_messages_body() {
    let large = "b".repeat(10_000);
    let mut messages = vec![system(&large), user(&large), assistant(&large)];
    let before: Vec<String> = messages.iter().map(|m| m.text.clone()).collect();
    compact_tool_results(&mut messages);
    let after: Vec<String> = messages.iter().map(|m| m.text.clone()).collect();
    assert_eq!(before, after);
}

#[test]
fn context_compact_preserves_non_tool_messages() {
    compact_preserves_non_tool_messages_body();
}

#[test]
fn compaction_compact_preserves_non_tool_messages() {
    compact_preserves_non_tool_messages_body();
}

#[test]
fn compact_tool_results_multiple_tool_messages() {
    let small = "x".repeat(100);
    let large = "y".repeat(10_000);
    let mut messages = vec![
        user("go"),
        assistant_with_tool_calls("", &[("c1", "small"), ("c2", "large")]),
        tool("c1", &small),
        tool("c2", &large),
    ];
    compact_tool_results(&mut messages);
    assert_eq!(messages[2].text, small);
    assert!(messages[3].text.len() < large.len());
    assert!(messages[3].text.contains("[Content compacted:"));
}

#[test]
fn compact_artifact_below_threshold_unchanged() {
    let content = "short content";
    assert_eq!(compact_artifact(content), content);
}

#[test]
fn compact_artifact_above_threshold_truncates() {
    let content = "x".repeat(10_000);
    let result = compact_artifact(&content);
    assert!(result.len() < content.len());
    assert!(result.contains("[Content compacted:"));
}

#[test]
fn compact_artifact_respects_line_limit() {
    let content: String =
        (0..100).map(|i| format!("line {}: {}", i, "x".repeat(200))).collect::<Vec<_>>().join("\n");
    let result = compact_artifact(&content);
    let lines = result.split("[Content compacted:").next().unwrap_or("").lines().count();
    assert!(lines <= ARTIFACT_PREVIEW_MAX_LINES + 1, "should respect line limit, got {lines} lines");
}

#[test]
fn compact_artifact_boundary_just_under_threshold() {
    let content = "a".repeat(8191);
    assert_eq!(compact_artifact(&content), content, "just under threshold should not compact");
}

#[test]
fn compact_artifact_boundary_at_threshold() {
    let content = "a".repeat(8192);
    assert!(compact_artifact(&content).len() < content.len(), "at threshold should compact");
}

#[test]
fn compact_artifact_exact_indicator() {
    let content = "a".repeat(8192);
    let expected = format!(
        "{}\n\n[Content compacted: original ~2048 tokens, showing first 1600 chars]",
        "a".repeat(1600)
    );
    assert_eq!(compact_artifact(&content), expected);
}

#[test]
fn compact_artifact_counts_characters_not_bytes() {
    // 3000 two-byte characters: 6000 bytes, below the threshold.
    let below = "é".repeat(3000);
    assert_eq!(compact_artifact(&below), below);
    // 5000 two-byte characters: 10000 bytes, ~2500 tokens; the preview keeps 1600 characters.
    let above = "é".repeat(5000);
    let expected = format!(
        "{}\n\n[Content compacted: original ~2500 tokens, showing first 1600 chars]",
        "é".repeat(1600)
    );
    assert_eq!(compact_artifact(&above), expected);
}

#[test]
fn compact_artifact_stops_after_line_limit() {
    let content: String = (0..30).map(|_| format!("{}\n", "z".repeat(400))).collect();
    let result = compact_artifact(&content);
    // 24 newlines kept: the preview is 3 full lines of 401 characters... until
    // the character limit of 1600 is reached first.
    assert!(result.starts_with(&"z".repeat(400)));
    assert!(result.ends_with("showing first 1600 chars]"));
    let short_lines: String = (0..40).map(|_| "ab\n").collect::<String>() + &"q".repeat(9000);
    let r2 = compact_artifact(&short_lines);
    assert!(r2.starts_with(&"ab\n".repeat(24)));
    assert!(r2.contains("showing first 72 chars]"));
}

// -- Summarization prompts --

#[test]
fn summarizer_default_max_tokens() {
    assert_eq!(DefaultSummarizer::default().max_tokens, 1024);
}

#[test]
fn summarizer_prompt_fresh_and_cumulative() {
    let s = DefaultSummarizer::default();
    assert_eq!(
        s.user_prompt("  talk  ", None),
        "Summarize the following conversation:\n\n<conversation>\ntalk\n</conversation>"
    );
    assert_eq!(
        s.user_prompt("talk", Some("   ")),
        "Summarize the following conversation:\n\n<conversation>\ntalk\n</conversation>"
    );
    assert_eq!(
        s.user_prompt("talk", Some(" old ")),
        "Update the cumulative summary with the new conversation span.\n\n<existing-summary>\nold\n</existing-summary>\n\n<new-conversation>\ntalk\n</new-conversation>"
    );
}

#[test]
fn summarizer_empty_reply_is_error() {
    assert_eq!(DefaultSummarizer::summary_from_reply(String::new()), Err("empty summary".to_string()));
    assert_eq!(DefaultSummarizer::summary_from_reply("s".into()), Ok("s".to_string()));
}

#[test]
fn truncation_keeps_call_with_recent_result() {
    // Each message costs 4 tokens; the budget after the system message fits
    // only the last message, a tool result: the split moves back so its call
    // is kept with it.
    let transform = ContextTransform::new(policy(9, 1));
    let messages = vec![
        system("sys"),
        user("hi"),
        assistant_with_tool_calls("", &[("c1", "search")]),
        tool("c1", "ok"),
    ];
    let out = transform.truncate(messages, 0);
    assert_eq!(out.len(), 3);
    assert_eq!(out[0].role, Role::System);
    assert_eq!(out[1].role, Role::Assistant);
    assert_eq!(out[2].role, Role::Tool);
    assert_no_orphaned_calls(&out);
}

#[test]
fn truncation_keeps_system_prefix_then_a_suffix() {
    let transform = ContextTransform::new(policy(14, 1));
    let messages = vec![
        system("sys"),
        internal_system("ctx"),
        user("one"),
        assistant("two"),
        user("three"),
    ];
    let out = transform.truncate(messages, 0);
    assert_eq!(out.len(), 3);
    assert_eq!(out[0].text, "sys");
    assert_eq!(out[1].text, "ctx");
    assert_eq!(out[2].text, "three");
}
