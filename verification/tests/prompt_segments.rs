use awaken_runtime::prompt_segments::{
    consume_after_emit_context_messages_action, remove_context_message_action,
    remove_context_messages_by_prefix_action, upsert_context_message_action, ContextMessage,
    PromptSegmentAction, PromptSegmentKey, PromptSegmentState, PromptSegmentsPlugin,
    PROMPT_SEGMENTS_PLUGIN_ID,
};

fn msg(key: &str, content: &str, consume: bool) -> ContextMessage {
    ContextMessage::session(key, content).with_consume_after_emit(consume)
}

#[test]
fn upsert_replaces_existing_key() {
    let mut state = PromptSegmentState { items: vec![msg("a", "old", true)] };
    state.reduce(PromptSegmentAction::Upsert { message: msg("a", "new", false) });
    assert_eq!(state.items.len(), 1);
    assert_eq!(state.items[0].content, "new");
    assert!(!state.items[0].consume_after_emit);
}

#[test]
fn upsert_adds_new_key() {
    let mut state = PromptSegmentState { items: vec![msg("a", "one", false)] };
    state.reduce(PromptSegmentAction::Upsert { message: msg("b", "two", false) });
    assert_eq!(state.items.len(), 2);
}

#[test]
fn remove_by_key() {
    let mut state = PromptSegmentState { items: vec![msg("a", "one", false), msg("b", "two", false)] };
    state.reduce(PromptSegmentAction::Remove { key: "a".into() });
    assert_eq!(state.items.len(), 1);
    assert_eq!(state.items[0].key, "b");
}

#[test]
fn remove_by_key_prefix_drops_matching() {
    let mut state = PromptSegmentState {
        items: vec![msg("reminder:a", "one", true), msg("skill:b", "two", false)],
    };
    state.reduce(PromptSegmentAction::RemoveByKeyPrefix { prefix: "reminder:".into() });
    assert_eq!(state.items.len(), 1);
    assert_eq!(state.items[0].key, "skill:b");
}

#[test]
fn consume_after_emit_only_removes_ephemeral() {
    let mut state = PromptSegmentState { items: vec![msg("a", "one", true), msg("b", "two", false)] };
    state.reduce(PromptSegmentAction::ConsumeAfterEmit);
    assert_eq!(state.items.len(), 1);
    assert_eq!(state.items[0].key, "b");
}

#[test]
fn clear_removes_all() {
    let mut state = PromptSegmentState { items: vec![msg("a", "one", false), msg("b", "two", false)] };
    state.reduce(PromptSegmentAction::Clear);
    assert!(state.items.is_empty());
}

#[test]
fn prompt_segments_plugin_registers_key() {
    assert_eq!(PromptSegmentKey::KEY, "prompt_segments");
    assert_eq!(PromptSegmentsPlugin.descriptor().name, PROMPT_SEGMENTS_PLUGIN_ID);
}

#[test]
fn state_via_store() {
    let mut state = PromptSegmentState::default();

    PromptSegmentKey::apply(&mut state, upsert_context_message_action(msg("greeting", "Hello!", false)));
    assert_eq!(state.items.len(), 1);
    assert_eq!(state.items[0].key, "greeting");

    PromptSegmentKey::apply(&mut state, upsert_context_message_action(msg("greeting", "Hi!", true)));
    assert_eq!(state.items.len(), 1);
    assert_eq!(state.items[0].content, "Hi!");
    assert!(state.items[0].consume_after_emit);

    PromptSegmentKey::apply(&mut state, consume_after_emit_context_messages_action());
    assert!(state.items.is_empty());
}

#[test]
fn action_constructors() {
    let a = upsert_context_message_action(msg("k", "v", false));
    assert!(matches!(a, PromptSegmentAction::Upsert { .. }));

    let a = remove_context_message_action("k");
    assert!(matches!(a, PromptSegmentAction::Remove { key } if key == "k"));

    let a = remove_context_messages_by_prefix_action("p:");
    assert!(matches!(a, PromptSegmentAction::RemoveByKeyPrefix { prefix } if prefix == "p:"));

    let a = consume_after_emit_context_messages_action();
    assert!(matches!(a, PromptSegmentAction::ConsumeAfterEmit));
}

#[test]
fn context_message_builder() {
    let m = ContextMessage::session("test", "hello").with_consume_after_emit(true);
    assert_eq!(m.key, "test");
    assert_eq!(m.content, "hello");
    assert!(m.consume_after_emit);
}

#[test]
fn upsert_keeps_keys_unique() {
    let mut state = PromptSegmentState::default();
    for content in ["1", "2", "3"] {
        state.reduce(PromptSegmentAction::Upsert { message: msg("k", content, false) });
        state.reduce(PromptSegmentAction::Upsert { message: msg("j", content, false) });
    }
    assert_eq!(state.items.len(), 2);
    assert_eq!(state.items.iter().filter(|m| m.key == "k").count(), 1);
}

#[test]
fn remove_then_no_item_with_key() {
    let mut state = PromptSegmentState { items: vec![msg("a", "1", false), msg("b", "2", true)] };
    state.reduce(PromptSegmentAction::Remove { key: "a".into() });
    assert!(state.items.iter().all(|m| m.key != "a"));
}

#[test]
fn consume_after_emit_twice_is_once() {
    let mut once = PromptSegmentState { items: vec![msg("a", "1", true), msg("b", "2", false)] };
    once.reduce(PromptSegmentAction::ConsumeAfterEmit);
    let keys_once: Vec<String> = once.items.iter().map(|m| m.key.clone()).collect();
    once.reduce(PromptSegmentAction::ConsumeAfterEmit);
    let keys_twice: Vec<String> = once.items.iter().map(|m| m.key.clone()).collect();
    assert_eq!(keys_once, keys_twice);
}
