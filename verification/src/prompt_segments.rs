//! Dynamic system prompt injection via durable prompt segments.
//!
//! Prompt segments are persistent context messages stored in the state store.
//! Plugins and tools can upsert, remove, or mark segments as ephemeral
//! (consume-after-emit). The prompt segments plugin reads them at each
//! inference turn and injects them into the system prompt.

use vstd::prelude::*;
use vstd::string::StringExecFns;

use crate::plugin::PluginDescriptor;
use crate::text::{str_eq, str_starts_with};

verus! {

/// Plugin ID for the prompt segments system.
pub const PROMPT_SEGMENTS_PLUGIN_ID: &'static str = "prompt_segments";

/// A persistent context message injected into inference turns.
#[derive(Debug, Clone, PartialEq, Eq)]
pub struct ContextMessage {
    /// Unique key for upsert semantics.
    pub key: String,
    /// Message content injected into the system prompt.
    pub content: String,
    /// If true, the message is removed after being emitted once.
    pub consume_after_emit: bool,
}

impl ContextMessage {
    /// Create a session-scoped context message.
    pub fn session(key: &str, content: &str) -> (m: Self)
        ensures
            m.key@ == key@,
            m.content@ == content@,
            !m.consume_after_emit,
    {
        ContextMessage {
            key: String::from_str(key),
            content: String::from_str(content),
            consume_after_emit: false,
        }
    }

    /// Set whether this message should be consumed after one emission.
    pub fn with_consume_after_emit(self, consume: bool) -> (m: Self)
        ensures
            m == (ContextMessage { consume_after_emit: consume, ..self }),
    {
        let mut s = self;
        s.consume_after_emit = consume;
        s
    }
}

/// Durable store for persistent context messages.
#[derive(Debug, Clone)]
pub struct PromptSegmentState {
    pub items: Vec<ContextMessage>,
}

impl Default for PromptSegmentState {
    fn default() -> (s: Self)
        ensures
            s.items@ == Seq::<ContextMessage>::empty(),
    {
        PromptSegmentState { items: Vec::new() }
    }
}

/// Reducer actions for `PromptSegmentState`.
#[derive(Debug, Clone, PartialEq, Eq)]
pub enum PromptSegmentAction {
    /// Insert or replace a context message by key.
    Upsert { message: ContextMessage },
    /// Remove one context message by key.
    Remove { key: String },
    /// Remove every context message whose key starts with the given prefix.
    RemoveByKeyPrefix { prefix: String },
    /// Remove every context message flagged `consume_after_emit`.
    ConsumeAfterEmit,
    /// Clear all stored context messages.
    Clear,
}

/// `i` is the first position of `items` holding `key`.
pub open spec fn is_first_key_index(items: Seq<ContextMessage>, key: Seq<char>, i: int) -> bool {
    0 <= i < items.len() && items[i].key@ == key && forall|j: int|
        0 <= j < i ==> items[j].key@ != key
}

/// Some item of `items` has key `key`.
pub open spec fn has_key(items: Seq<ContextMessage>, key: Seq<char>) -> bool {
    exists|i: int| 0 <= i < items.len() && items[i].key@ == key
}

/// Items after an upsert: the first item with the message's key is replaced,
/// or the message is appended when no item has that key.
pub open spec fn upsert_spec(items: Seq<ContextMessage>, m: ContextMessage) -> Seq<ContextMessage> {
    if has_key(items, m.key@) {
        items.update(choose|i: int| is_first_key_index(items, m.key@, i), m)
    } else {
        items.push(m)
    }
}

/// Which items a filtering action keeps.
pub open spec fn keeps(action: PromptSegmentAction, m: ContextMessage) -> bool {
    match action {
        PromptSegmentAction::Remove { key } => m.key@ != key@,
        PromptSegmentAction::RemoveByKeyPrefix { prefix } => !prefix@.is_prefix_of(m.key@),
        PromptSegmentAction::ConsumeAfterEmit => !m.consume_after_emit,
        _ => true,
    }
}

/// The items after applying `action`.
pub open spec fn reduce_spec(items: Seq<ContextMessage>, action: PromptSegmentAction) -> Seq<
    ContextMessage,
> {
    match action {
        PromptSegmentAction::Upsert { message } => upsert_spec(items, message),
        PromptSegmentAction::Clear => Seq::empty(),
        _ => items.filter(|m: ContextMessage| keeps(action, m)),
    }
}

/// Keep the items for which `keeps(action, item)` holds, in order.
fn retain_items(items: &mut Vec<ContextMessage>, action: &PromptSegmentAction)
    requires
        !(*action is Upsert),
        !(*action is Clear),
    ensures
        final(items)@ == old(items)@.filter(|m: ContextMessage| keeps(*action, m)),
{
    let ghost orig = items@;
    let ghost pred = |m: ContextMessage| keeps(*action, m);
    let mut rest: Vec<ContextMessage> = Vec::new();
    std::mem::swap(&mut rest, items);
    let n = rest.len();
    let mut i: usize = 0;
    assert(orig.subrange(0, 0).filter(pred) =~= Seq::<ContextMessage>::empty()) by {
        reveal(Seq::filter);
    }
    while rest.len() > 0
        invariant
            n == orig.len(),
            i + rest@.len() == n,
            rest@ == orig.subrange(i as int, n as int),
            items@ == orig.subrange(0, i as int).filter(pred),
            pred == (|m: ContextMessage| keeps(*action, m)),
            !(*action is Upsert),
            !(*action is Clear),
        decreases rest@.len(),
    {
        let m = rest.remove(0);
        let keep = match action {
            PromptSegmentAction::Remove { key } => !str_eq(m.key.as_str(), key.as_str()),
            PromptSegmentAction::RemoveByKeyPrefix { prefix } => !str_starts_with(
                m.key.as_str(),
                prefix.as_str(),
            ),
            PromptSegmentAction::ConsumeAfterEmit => !m.consume_after_emit,
            _ => true,
        };
        proof {
            assert(orig.subrange(0, i + 1).drop_last() =~= orig.subrange(0, i as int));
            assert(orig.subrange(0, i + 1).last() == m);
            reveal(Seq::filter);
            assert(keep == pred(m));
            assert(rest@ =~= orig.subrange(i + 1, n as int));
        }
        if keep {
            items.push(m);
        }
        i = i + 1;
    }
    assert(orig.subrange(0, n as int) =~= orig);
}

/// No two items share a key.
pub open spec fn keys_unique(items: Seq<ContextMessage>) -> bool {
    forall|i: int, j: int|
        0 <= i < items.len() && 0 <= j < items.len() && i != j ==> items[i].key@ != items[j].key@
}

/// Upserting into a store whose keys are unique keeps them unique; the
/// message is then the one item under its key, and every item under another
/// key is still there.
pub proof fn lemma_upsert_keys_unique(items: Seq<ContextMessage>, m: ContextMessage)
    requires
        keys_unique(items),
    ensures
        keys_unique(upsert_spec(items, m)),
        upsert_spec(items, m).contains(m),
        forall|i: int|
            0 <= i < upsert_spec(items, m).len() && upsert_spec(items, m)[i].key@ == m.key@
                ==> upsert_spec(items, m)[i] == m,
        forall|j: int|
            0 <= j < items.len() && items[j].key@ != m.key@ ==> upsert_spec(items, m).contains(
                items[j],
            ),
{
    let r = upsert_spec(items, m);
    if has_key(items, m.key@) {
        let w = choose|i: int| 0 <= i < items.len() && items[i].key@ == m.key@;
        assert(is_first_key_index(items, m.key@, w));
        let c = choose|i: int| is_first_key_index(items, m.key@, i);
        assert(r[c] == m);
        assert forall|j: int| 0 <= j < items.len() && items[j].key@ != m.key@ implies r.contains(
            items[j],
        ) by {
            assert(r[j] == items[j]);
        }
    } else {
        assert(r[items.len() as int] == m);
        assert forall|j: int| 0 <= j < items.len() && items[j].key@ != m.key@ implies r.contains(
            items[j],
        ) by {
            assert(r[j] == items[j]);
        }
    }
}

/// After `Remove { key }` no item has that key, and after
/// `RemoveByKeyPrefix { prefix }` no key starts with the prefix.
pub proof fn lemma_remove_leaves_none(items: Seq<ContextMessage>, action: PromptSegmentAction)
    requires
        action is Remove || action is RemoveByKeyPrefix || action is ConsumeAfterEmit,
    ensures
        forall|i: int|
            0 <= i < reduce_spec(items, action).len() ==> keeps(
                action,
                #[trigger] reduce_spec(items, action)[i],
            ),
{
    let pred = |m: ContextMessage| keeps(action, m);
    assert forall|i: int| 0 <= i < items.filter(pred).len() implies keeps(
        action,
        #[trigger] items.filter(pred)[i],
    ) by {
        items.lemma_filter_pred(pred, i);
    }
}

/// The removal actions, item by item: `Remove { key }` keeps exactly the
/// items whose key differs from `key` (an item whose key merely starts with
/// `key` stays), in order; `RemoveByKeyPrefix { prefix }` keeps exactly the
/// items whose key does not start with `prefix`; `ConsumeAfterEmit` keeps
/// exactly the items not marked to be consumed.
pub proof fn lemma_removals_keep(items: Seq<ContextMessage>, k: String)
    ensures
        reduce_spec(items, PromptSegmentAction::Remove { key: k }) == items.filter(
            |m: ContextMessage| m.key@ != k@,
        ),
        reduce_spec(items, PromptSegmentAction::RemoveByKeyPrefix { prefix: k }) == items.filter(
            |m: ContextMessage| !k@.is_prefix_of(m.key@),
        ),
        reduce_spec(items, PromptSegmentAction::ConsumeAfterEmit) == items.filter(
            |m: ContextMessage| !m.consume_after_emit,
        ),
        forall|j: int|
            0 <= j < items.len() && items[j].key@ != k@ ==> reduce_spec(
                items,
                PromptSegmentAction::Remove { key: k },
            ).contains(#[trigger] items[j]),
{
    let a = PromptSegmentAction::Remove { key: k };
    assert((|m: ContextMessage| keeps(a, m)) =~= (|m: ContextMessage| m.key@ != k@));
    let b = PromptSegmentAction::RemoveByKeyPrefix { prefix: k };
    assert((|m: ContextMessage| keeps(b, m)) =~= (|m: ContextMessage| !k@.is_prefix_of(m.key@)));
    let c = PromptSegmentAction::ConsumeAfterEmit;
    assert((|m: ContextMessage| keeps(c, m)) =~= (|m: ContextMessage| !m.consume_after_emit));
    assert forall|j: int|
        0 <= j < items.len() && items[j].key@ != k@ implies reduce_spec(items, a).contains(
        #[trigger] items[j],
    ) by {
        items.lemma_filter_contains(|m: ContextMessage| m.key@ != k@, j);
    }
}

proof fn lemma_filter_twice(items: Seq<ContextMessage>, pred: spec_fn(ContextMessage) -> bool)
    ensures
        items.filter(pred).filter(pred) == items.filter(pred),
    decreases items.len(),
{
    reveal(Seq::filter);
    if items.len() > 0 {
        lemma_filter_twice(items.drop_last(), pred);
        let sub = items.drop_last().filter(pred);
        if pred(items.last()) {
            assert(sub.push(items.last()).drop_last() =~= sub);
        }
    }
}

/// The filtering actions are idempotent: applying one twice is the same as
/// applying it once; so is `Clear`.
pub proof fn lemma_filter_action_idempotent(items: Seq<ContextMessage>, action: PromptSegmentAction)
    requires
        !(action is Upsert),
    ensures
        reduce_spec(reduce_spec(items, action), action) == reduce_spec(items, action),
{
    if !(action is Clear) {
        lemma_filter_twice(items, |m: ContextMessage| keeps(action, m));
    }
}

impl PromptSegmentState {
    /// Apply a reducer action.
    pub fn reduce(&mut self, action: PromptSegmentAction)
        ensures
            final(self).items@ == reduce_spec(old(self).items@, action),
    {
        let ghost act = action;
        match action {
            PromptSegmentAction::Upsert { message } => {
                assert(act == PromptSegmentAction::Upsert { message });
                let n = self.items.len();
                let mut i: usize = 0;
                while i < n
                    invariant
                        n == self.items@.len(),
                        self.items@ == old(self).items@,
                        act == action,
                        act == (PromptSegmentAction::Upsert { message }),
                        i <= n,
                        forall|j: int| 0 <= j < i ==> self.items@[j].key@ != message.key@,
                    decreases n - i,
                {
                    if str_eq(self.items[i].key.as_str(), message.key.as_str()) {
                        let ghost m = message;
                        proof {
                            assert(is_first_key_index(self.items@, message.key@, i as int));
                            let c = choose|c: int| is_first_key_index(self.items@, message.key@, c);
                            assert(c == i);
                            assert(has_key(self.items@, message.key@));
                        }
                        self.items.set(i, message);
                        assert(self.items@ == upsert_spec(old(self).items@, m));
                        return;
                    }
                    i = i + 1;
                }
                self.items.push(message);
            },
            PromptSegmentAction::Clear => {
                self.items.clear();
            },
            _ => {
                retain_items(&mut self.items, &action);
            },
        }
    }
}

/// State key for prompt segments.
pub struct PromptSegmentKey;

impl PromptSegmentKey {
    pub const KEY: &'static str = "prompt_segments";

    /// Apply an update to the stored value.
    pub fn apply(value: &mut PromptSegmentState, update: PromptSegmentAction)
        ensures
            final(value).items@ == reduce_spec(old(value).items@, update),
    {
        value.reduce(update);
    }
}

/// Create a state update that upserts a context message.
pub fn upsert_context_message_action(message: ContextMessage) -> (a: PromptSegmentAction)
    ensures
        a == (PromptSegmentAction::Upsert { message }),
{
    PromptSegmentAction::Upsert { message }
}

/// Create a state update that removes a context message by key.
pub fn remove_context_message_action(key: &str) -> (a: PromptSegmentAction)
    ensures
        a matches PromptSegmentAction::Remove { key: k } && k@ == key@,
{
    PromptSegmentAction::Remove { key: String::from_str(key) }
}

/// Create a state update that removes all messages with a given key prefix.
pub fn remove_context_messages_by_prefix_action(prefix: &str) -> (a: PromptSegmentAction)
    ensures
        a matches PromptSegmentAction::RemoveByKeyPrefix { prefix: p } && p@ == prefix@,
{
    PromptSegmentAction::RemoveByKeyPrefix { prefix: String::from_str(prefix) }
}

/// Create a state update that consumes all ephemeral messages.
pub fn consume_after_emit_context_messages_action() -> (a: PromptSegmentAction)
    ensures
        a == PromptSegmentAction::ConsumeAfterEmit,
{
    PromptSegmentAction::ConsumeAfterEmit
}

/// Plugin that bridges durable prompt-segment state into per-inference context.
#[derive(Debug, Clone, Copy, Default)]
pub struct PromptSegmentsPlugin;

impl PromptSegmentsPlugin {
    pub fn descriptor(&self) -> (d: PluginDescriptor)
        ensures
            d.name == PROMPT_SEGMENTS_PLUGIN_ID,
    {
        PluginDescriptor { name: PROMPT_SEGMENTS_PLUGIN_ID }
    }
}

} // verus!
