use awaken_runtime::context_messages::{
    ContextMessageAction, ContextMessageStore, ContextMessageStoreValue, ContextMessageTarget,
    ScheduledContextMessage,
};
use awaken_runtime::loop_actions::{
    handle_context_message, take_and_apply_tool_filters, AccumulatedToolExclusions,
    AccumulatedToolExclusionsUpdate, AccumulatedToolInclusions, AccumulatedToolInclusionsUpdate,
    AccumulatedToolIntercept, AccumulatedToolInterceptUpdate, ContextThrottleMap,
    ContextThrottleState, ContextThrottleUpdate, ToolInclusionSet, ToolInterceptPayload,
    ContextMessageHandler, take_accumulated_context_messages,
};
use awaken_runtime::message::{Role, Visibility};
use awaken_runtime::strmap::StrSet;
use awaken_runtime::tool::ToolDescriptor;

fn cm(
    key: &str,
    text: &str,
    target: ContextMessageTarget,
    persistent: bool,
    consume_after_emit: bool,
) -> ScheduledContextMessage {
    ScheduledContextMessage {
        key: key.to_string(),
        role: Role::System,
        text: text.to_string(),
        visibility: Visibility::Internal,
        target,
        priority: 0,
        persistent,
        consume_after_emit,
        cooldown_turns: 0,
        estimated_tokens: 1,
    }
}

fn system(key: &str, text: &str) -> ScheduledContextMessage {
    cm(key, text, ContextMessageTarget::System, false, false)
}

fn system_persistent(key: &str, text: &str) -> ScheduledContextMessage {
    cm(key, text, ContextMessageTarget::System, true, false)
}

fn set_of(items: &[&str]) -> StrSet {
    let mut s = StrSet::new();
    for i in items {
        s.insert(i.to_string());
    }
    s
}

// -- ContextMessageStore --

#[test]
fn context_message_store_upsert() {
    let mut val = ContextMessageStoreValue::default();
    ContextMessageStore::apply(&mut val, ContextMessageAction::Upsert(system("k1", "msg1")));
    assert_eq!(val.messages.len(), 1);
    assert!(val.messages.contains_key("k1"));
}

#[test]
fn context_message_store_upsert_replaces() {
    let mut val = ContextMessageStoreValue::default();
    ContextMessageStore::apply(&mut val, ContextMessageAction::Upsert(system("k1", "msg1")));
    ContextMessageStore::apply(&mut val, ContextMessageAction::Upsert(system("k1", "updated")));
    assert_eq!(val.messages.len(), 1);
    assert_eq!(val.messages.get("k1").unwrap().text, "updated");
}

#[test]
fn context_message_store_upsert_multiple() {
    let mut val = ContextMessageStoreValue::default();
    for i in 0..5 {
        ContextMessageStore::apply(
            &mut val,
            ContextMessageAction::Upsert(system(&format!("k{i}"), &format!("msg{i}"))),
        );
    }
    assert_eq!(val.messages.len(), 5);
}

#[test]
fn context_message_store_remove() {
    let mut val = ContextMessageStoreValue::default();
    ContextMessageStore::apply(&mut val, ContextMessageAction::Upsert(system("k1", "msg1")));
    ContextMessageStore::apply(&mut val, ContextMessageAction::Upsert(system("k2", "msg2")));
    ContextMessageStore::apply(&mut val, ContextMessageAction::Remove("k1".into()));
    assert_eq!(val.messages.len(), 1);
    assert!(val.messages.contains_key("k2"));
}

#[test]
fn context_message_store_remove_by_prefix() {
    let mut val = ContextMessageStoreValue::default();
    ContextMessageStore::apply(&mut val, ContextMessageAction::Upsert(system("mcp:tool1", "t1")));
    ContextMessageStore::apply(&mut val, ContextMessageAction::Upsert(system("mcp:tool2", "t2")));
    ContextMessageStore::apply(&mut val, ContextMessageAction::Upsert(system("skill:a", "s1")));
    ContextMessageStore::apply(&mut val, ContextMessageAction::RemoveByPrefix("mcp:".into()));
    assert_eq!(val.messages.len(), 1);
    assert!(val.messages.contains_key("skill:a"));
}

#[test]
fn context_message_store_remove_ephemeral() {
    let mut val = ContextMessageStoreValue::default();
    ContextMessageStore::apply(&mut val, ContextMessageAction::Upsert(system("eph", "ephemeral")));
    ContextMessageStore::apply(
        &mut val,
        ContextMessageAction::Upsert(system_persistent("pers", "persistent")),
    );
    ContextMessageStore::apply(&mut val, ContextMessageAction::RemoveEphemeral);
    assert_eq!(val.messages.len(), 1);
    assert!(val.messages.contains_key("pers"));
}

#[test]
fn context_message_store_consume_after_emit() {
    let mut val = ContextMessageStoreValue::default();
    ContextMessageStore::apply(
        &mut val,
        ContextMessageAction::Upsert(cm("once", "once", ContextMessageTarget::System, false, true)),
    );
    ContextMessageStore::apply(&mut val, ContextMessageAction::Upsert(system_persistent("keep", "keep")));
    ContextMessageStore::apply(&mut val, ContextMessageAction::ConsumeAfterEmit);
    assert_eq!(val.messages.len(), 1);
    assert!(val.messages.contains_key("keep"));
}

#[test]
fn context_message_store_clear() {
    let mut val = ContextMessageStoreValue::default();
    ContextMessageStore::apply(&mut val, ContextMessageAction::Upsert(system("k1", "msg1")));
    ContextMessageStore::apply(&mut val, ContextMessageAction::Clear);
    assert!(val.messages.is_empty());
}

#[test]
fn context_message_store_sorted_messages() {
    let mut val = ContextMessageStoreValue::default();
    let mut suffix = cm("z_suffix", "last", ContextMessageTarget::SuffixSystem, false, false);
    suffix.priority = 0;
    ContextMessageStore::apply(&mut val, ContextMessageAction::Upsert(suffix));
    let mut a = system("a_sys", "first");
    a.priority = 0;
    ContextMessageStore::apply(&mut val, ContextMessageAction::Upsert(a));
    let mut b = system("b_sys", "second");
    b.priority = 10;
    ContextMessageStore::apply(&mut val, ContextMessageAction::Upsert(b));
    let sorted = val.sorted_messages();
    assert_eq!(sorted[0].key, "a_sys");
    assert_eq!(sorted[1].key, "b_sys");
    assert_eq!(sorted[2].key, "z_suffix");
}

#[test]
fn sorted_messages_orders_keys_lexicographically() {
    let mut val = ContextMessageStoreValue::default();
    for k in ["b", "ab", "a", "ä"] {
        ContextMessageStore::apply(&mut val, ContextMessageAction::Upsert(system(k, k)));
    }
    let keys: Vec<&str> = val.sorted_messages().iter().map(|m| m.key.as_str()).collect();
    assert_eq!(keys, vec!["a", "ab", "b", "ä"]);
}

// -- AccumulatedToolExclusions --

#[test]
fn accumulated_tool_exclusions_add() {
    let mut val = StrSet::new();
    AccumulatedToolExclusions::apply(&mut val, AccumulatedToolExclusionsUpdate::Add("search".into()));
    assert!(val.contains("search"));
    assert_eq!(val.len(), 1);
}

#[test]
fn accumulated_tool_exclusions_add_deduplicates() {
    let mut val = StrSet::new();
    AccumulatedToolExclusions::apply(&mut val, AccumulatedToolExclusionsUpdate::Add("search".into()));
    AccumulatedToolExclusions::apply(&mut val, AccumulatedToolExclusionsUpdate::Add("search".into()));
    assert_eq!(val.len(), 1);
}

#[test]
fn accumulated_tool_exclusions_add_multiple() {
    let mut val = StrSet::new();
    for tool in ["search", "calc", "browser"] {
        AccumulatedToolExclusions::apply(&mut val, AccumulatedToolExclusionsUpdate::Add(tool.into()));
    }
    assert_eq!(val.len(), 3);
}

#[test]
fn accumulated_tool_exclusions_clear() {
    let mut val = set_of(&["a", "b"]);
    AccumulatedToolExclusions::apply(&mut val, AccumulatedToolExclusionsUpdate::Clear);
    assert!(val.is_empty());
}

// -- AccumulatedToolInclusions --

#[test]
fn accumulated_tool_inclusions_default_is_none() {
    let val = ToolInclusionSet::default();
    assert!(val.0.is_none());
}

#[test]
fn accumulated_tool_inclusions_extend_creates_set() {
    let mut val = ToolInclusionSet::default();
    AccumulatedToolInclusions::apply(
        &mut val,
        AccumulatedToolInclusionsUpdate::Extend(vec!["search".into(), "calc".into()]),
    );
    assert!(val.0.is_some());
    let set = val.0.as_ref().unwrap();
    assert_eq!(set.len(), 2);
    assert!(set.contains("search"));
    assert!(set.contains("calc"));
}

#[test]
fn accumulated_tool_inclusions_extend_merges() {
    let mut val = ToolInclusionSet::default();
    AccumulatedToolInclusions::apply(&mut val, AccumulatedToolInclusionsUpdate::Extend(vec!["a".into()]));
    AccumulatedToolInclusions::apply(
        &mut val,
        AccumulatedToolInclusionsUpdate::Extend(vec!["b".into(), "c".into()]),
    );
    let set = val.0.as_ref().unwrap();
    assert_eq!(set.len(), 3);
}

#[test]
fn accumulated_tool_inclusions_extend_deduplicates() {
    let mut val = ToolInclusionSet::default();
    AccumulatedToolInclusions::apply(&mut val, AccumulatedToolInclusionsUpdate::Extend(vec!["a".into()]));
    AccumulatedToolInclusions::apply(
        &mut val,
        AccumulatedToolInclusionsUpdate::Extend(vec!["a".into(), "b".into()]),
    );
    let set = val.0.as_ref().unwrap();
    assert_eq!(set.len(), 2);
}

#[test]
fn accumulated_tool_inclusions_clear() {
    let mut val = ToolInclusionSet(Some(set_of(&["x", "y"])));
    AccumulatedToolInclusions::apply(&mut val, AccumulatedToolInclusionsUpdate::Clear);
    assert!(val.0.is_none());
}

#[test]
fn accumulated_tool_inclusions_empty_extend() {
    let mut val = ToolInclusionSet::default();
    AccumulatedToolInclusions::apply(&mut val, AccumulatedToolInclusionsUpdate::Extend(vec![]));
    assert!(val.0.is_some());
    assert!(val.0.as_ref().unwrap().is_empty());
}

// -- Tool filters --

fn tools(ids: &[&str]) -> Vec<ToolDescriptor> {
    ids.iter().map(|id| ToolDescriptor::new(id, id, "d")).collect()
}

fn ids(ts: &[ToolDescriptor]) -> Vec<String> {
    ts.iter().map(|t| t.id.clone()).collect()
}

#[test]
fn tool_filters_include_then_exclude_and_clear() {
    let mut ex = set_of(&["b"]);
    let mut inc = ToolInclusionSet(Some(set_of(&["a", "b"])));
    let mut ts = tools(&["a", "b", "c"]);
    take_and_apply_tool_filters(&mut ex, &mut inc, &mut ts);
    assert_eq!(ids(&ts), vec!["a".to_string()]);
    assert!(ex.is_empty());
    assert!(inc.0.is_none());
}

#[test]
fn tool_filters_without_filters_keep_everything() {
    let mut ex = StrSet::new();
    let mut inc = ToolInclusionSet::default();
    let mut ts = tools(&["a", "b"]);
    take_and_apply_tool_filters(&mut ex, &mut inc, &mut ts);
    assert_eq!(ids(&ts), vec!["a".to_string(), "b".to_string()]);
}

#[test]
fn tool_filters_empty_allow_list_keeps_nothing() {
    let mut ex = StrSet::new();
    let mut inc = ToolInclusionSet(Some(StrSet::new()));
    let mut ts = tools(&["a", "b"]);
    take_and_apply_tool_filters(&mut ex, &mut inc, &mut ts);
    assert!(ts.is_empty());
}

// -- Tool intercept --

type Payload = ToolInterceptPayload<&'static str, &'static str>;

fn make_block() -> Payload {
    ToolInterceptPayload::Block { reason: "blocked".into() }
}

fn make_suspend() -> Payload {
    ToolInterceptPayload::Suspend("ticket")
}

fn make_set_result(name: &'static str) -> Payload {
    ToolInterceptPayload::SetResult(name)
}

#[test]
fn accumulated_tool_intercept_block_wins_over_suspend() {
    let mut val: Option<Payload> = None;
    AccumulatedToolIntercept::apply(&mut val, AccumulatedToolInterceptUpdate::Offer(make_suspend()));
    AccumulatedToolIntercept::apply(&mut val, AccumulatedToolInterceptUpdate::Offer(make_block()));
    assert!(matches!(val, Some(ToolInterceptPayload::Block { .. })));
}

#[test]
fn accumulated_tool_intercept_block_wins_over_set_result() {
    let mut val: Option<Payload> = None;
    AccumulatedToolIntercept::apply(&mut val, AccumulatedToolInterceptUpdate::Offer(make_set_result("r1")));
    AccumulatedToolIntercept::apply(&mut val, AccumulatedToolInterceptUpdate::Offer(make_block()));
    assert!(matches!(val, Some(ToolInterceptPayload::Block { .. })));
}

#[test]
fn accumulated_tool_intercept_suspend_wins_over_set_result() {
    let mut val: Option<Payload> = None;
    AccumulatedToolIntercept::apply(&mut val, AccumulatedToolInterceptUpdate::Offer(make_set_result("r1")));
    AccumulatedToolIntercept::apply(&mut val, AccumulatedToolInterceptUpdate::Offer(make_suspend()));
    assert!(matches!(val, Some(ToolInterceptPayload::Suspend(_))));
}

#[test]
fn accumulated_tool_intercept_clear_resets() {
    let mut val: Option<Payload> = None;
    AccumulatedToolIntercept::apply(&mut val, AccumulatedToolInterceptUpdate::Offer(make_block()));
    assert!(val.is_some());
    AccumulatedToolIntercept::apply(&mut val, AccumulatedToolInterceptUpdate::Clear);
    assert!(val.is_none());
}

#[test]
fn accumulated_tool_intercept_lower_priority_ignored() {
    let mut val: Option<Payload> = None;
    AccumulatedToolIntercept::apply(&mut val, AccumulatedToolInterceptUpdate::Offer(make_block()));
    AccumulatedToolIntercept::apply(&mut val, AccumulatedToolInterceptUpdate::Offer(make_suspend()));
    assert!(matches!(val, Some(ToolInterceptPayload::Block { .. })));
}

#[test]
fn accumulated_tool_intercept_same_priority_keeps_first() {
    let mut val: Option<Payload> = None;
    AccumulatedToolIntercept::apply(&mut val, AccumulatedToolInterceptUpdate::Offer(make_set_result("r1")));
    AccumulatedToolIntercept::apply(&mut val, AccumulatedToolInterceptUpdate::Offer(make_set_result("r2")));
    assert!(matches!(val, Some(ToolInterceptPayload::SetResult("r1"))));
}

// -- Context throttling --

#[test]
fn throttle_zero_cooldown_always_injects() {
    let mut map = ContextThrottleMap::default();
    let first = handle_context_message(&map, "k", 0, 7, Some(0)).unwrap();
    ContextThrottleState::apply(&mut map, first);
    assert!(handle_context_message(&map, "k", 0, 7, Some(0)).is_some());
}

#[test]
fn throttle_cooldown_suppresses_then_allows() {
    let mut map = ContextThrottleMap::default();
    let first = handle_context_message(&map, "k", 3, 7, Some(0)).unwrap();
    match &first {
        ContextThrottleUpdate::Injected { key, step, content_hash } => {
            assert_eq!(key, "k");
            assert_eq!(*step, 1);
            assert_eq!(*content_hash, 7);
        }
    }
    ContextThrottleState::apply(&mut map, first);
    assert!(handle_context_message(&map, "k", 3, 7, Some(1)).is_none());
    assert!(handle_context_message(&map, "k", 3, 7, Some(2)).is_none());
    assert!(handle_context_message(&map, "k", 3, 7, Some(3)).is_some());
}

#[test]
fn throttle_changed_content_reinjects() {
    let mut map = ContextThrottleMap::default();
    let first = handle_context_message(&map, "k", 5, 1, None).unwrap();
    ContextThrottleState::apply(&mut map, first);
    assert!(handle_context_message(&map, "k", 5, 1, None).is_none());
    assert!(handle_context_message(&map, "k", 5, 2, None).is_some());
}

#[test]
fn context_message_handler_throttles_and_pushes() {
    let mut map = ContextThrottleMap::default();
    let mut acc: Vec<ScheduledContextMessage> = Vec::new();
    let mut msg = system("k", "check sudo");
    msg.cooldown_turns = 5;
    let first = ContextMessageHandler::handle_typed(&map, msg, Some(0));
    assert!(matches!(first, Some((ContextThrottleUpdate::Injected { ref key, step: 1, .. }, _)) if key == "k"));
    ContextMessageHandler::commit(&mut map, &mut acc, first);
    assert_eq!(acc.len(), 1);
    assert_eq!(map.entries.get("k").unwrap().last_step, 1);
    // Same content within the cooldown: suppressed, nothing pushed.
    let mut again = system("k", "check sudo");
    again.cooldown_turns = 5;
    let second = ContextMessageHandler::handle_typed(&map, again, Some(1));
    assert!(second.is_none());
    ContextMessageHandler::commit(&mut map, &mut acc, second);
    assert_eq!(acc.len(), 1);
    // Changed content: injected again.
    let mut changed = system("k", "check permissions");
    changed.cooldown_turns = 5;
    let third = ContextMessageHandler::handle_typed(&map, changed, Some(1));
    assert!(third.is_some());
    ContextMessageHandler::commit(&mut map, &mut acc, third);
    assert_eq!(acc.len(), 2);
    assert_eq!(acc[1].text, "check permissions");
    let taken = take_accumulated_context_messages(&mut acc);
    assert_eq!(taken.len(), 2);
    assert!(acc.is_empty());
}

#[test]
fn accumulated_tool_intercept_keeps_first_of_highest_priority() {
    let mut val: Option<Payload> = None;
    let offers = vec![
        make_set_result("r1"),
        ToolInterceptPayload::Block { reason: "first".into() },
        make_suspend(),
        ToolInterceptPayload::Block { reason: "second".into() },
        make_set_result("r2"),
    ];
    for p in offers {
        AccumulatedToolIntercept::apply(&mut val, AccumulatedToolInterceptUpdate::Offer(p));
    }
    assert!(matches!(val, Some(ToolInterceptPayload::Block { ref reason }) if reason == "first"));
}
