//! Loop-consumed actions: accumulators written by action handlers during the
//! before-inference phase, context-message throttling, and the tool filters
//! the orchestrator applies afterwards.

use vstd::prelude::*;
use vstd::string::StringExecFns;

use crate::context_messages::ScheduledContextMessage;
use crate::json::{
    fields_view, items_view, json_text, json_value_text, lemma_fields_view, lemma_items_view,
    JsonValue, JsonView,
};
use crate::strmap::{StrMap, StrSet};
use crate::tool::ToolDescriptor;

verus! {

/// Action spec for injecting a context message into the prompt.
pub struct AddContextMessage;

impl AddContextMessage {
    pub const KEY: &'static str = "runtime.add_context_message";
}

/// Action spec for per-inference parameter overrides.
pub struct SetInferenceOverride;

impl SetInferenceOverride {
    pub const KEY: &'static str = "runtime.set_inference_override";
}

/// Action spec for excluding a specific tool from the current inference step.
pub struct ExcludeTool;

impl ExcludeTool {
    pub const KEY: &'static str = "runtime.exclude_tool";
}

/// Action spec for restricting tools to an explicit allow-list for the current inference step.
pub struct IncludeOnlyTools;

impl IncludeOnlyTools {
    pub const KEY: &'static str = "runtime.include_only_tools";
}

// ---------------------------------------------------------------------------
// Tool exclusions / inclusions
// ---------------------------------------------------------------------------

/// Accumulated tool exclusion IDs for the current step.
pub struct AccumulatedToolExclusions;

/// Update for [`AccumulatedToolExclusions`].
pub enum AccumulatedToolExclusionsUpdate {
    /// Add a tool ID to exclude.
    Add(String),
    /// Clear the accumulator (at step start).
    Clear,
}

impl AccumulatedToolExclusions {
    pub const KEY: &'static str = "__runtime.accumulated_tool_exclusions";

    /// Apply an update: `Add` inserts the ID, `Clear` empties the set.
    pub fn apply(value: &mut StrSet, update: AccumulatedToolExclusionsUpdate)
        ensures
            match update {
                AccumulatedToolExclusionsUpdate::Add(id) => final(value)@ == old(value)@.insert(id@),
                AccumulatedToolExclusionsUpdate::Clear => final(value)@ == Set::<Seq<char>>::empty(),
            },
    {
        match update {
            AccumulatedToolExclusionsUpdate::Add(id) => value.insert(id),
            AccumulatedToolExclusionsUpdate::Clear => value.clear(),
        }
    }
}

/// Accumulated tool inclusion allow-list for the current step.
pub struct AccumulatedToolInclusions;

/// Update for [`AccumulatedToolInclusions`].
pub enum AccumulatedToolInclusionsUpdate {
    /// Extend the allow-list with additional tool IDs.
    Extend(Vec<String>),
    /// Clear the accumulator (at step start).
    Clear,
}

/// The value is `None` when no `IncludeOnlyTools` action has been scheduled,
/// and `Some(set)` when at least one has been processed.
pub struct ToolInclusionSet(pub Option<StrSet>);

impl ToolInclusionSet {
    /// The allow-list, if one was set.
    pub open spec fn spec_allowed(&self) -> Option<Set<Seq<char>>> {
        match self.0 {
            Some(s) => Some(s@),
            None => None,
        }
    }
}

impl Default for ToolInclusionSet {
    fn default() -> (s: Self)
        ensures
            s.spec_allowed() is None,
    {
        ToolInclusionSet(None)
    }
}

impl AccumulatedToolInclusions {
    pub const KEY: &'static str = "__runtime.accumulated_tool_inclusions";

    /// Apply an update: `Extend` unions the IDs into the allow-list (creating
    /// it, possibly empty, when absent); `Clear` removes the allow-list.
    pub fn apply(value: &mut ToolInclusionSet, update: AccumulatedToolInclusionsUpdate)
        ensures
            match update {
                AccumulatedToolInclusionsUpdate::Extend(ids) => final(value).spec_allowed() == Some(
                    match old(value).spec_allowed() {
                        Some(s) => s,
                        None => Set::<Seq<char>>::empty(),
                    }.union(ids@.map_values(|k: String| k@).to_set()),
                ),
                AccumulatedToolInclusionsUpdate::Clear => final(value).spec_allowed() is None,
            },
    {
        match update {
            AccumulatedToolInclusionsUpdate::Extend(ids) => {
                let mut set = match value.0.take() {
                    Some(s) => s,
                    None => StrSet::new(),
                };
                set.extend(ids);
                value.0 = Some(set);
            },
            AccumulatedToolInclusionsUpdate::Clear => {
                value.0 = None;
            },
        }
    }
}

/// Whether the tool with this ID survives the step's filters: it must be in
/// the allow-list when one is set, and must not be excluded.
pub open spec fn tool_allowed(
    id: Seq<char>,
    exclusions: Set<Seq<char>>,
    inclusions: Option<Set<Seq<char>>>,
) -> bool {
    &&& match inclusions {
        Some(allowed) => allowed.contains(id),
        None => true,
    }
    &&& !exclusions.contains(id)
}

/// Apply the accumulated filters to the tool list and clear both
/// accumulators when either holds a filter.
///
/// If an allow-list was accumulated, only tools in it are kept; then every
/// excluded tool ID is removed. Order is preserved.
pub fn take_and_apply_tool_filters(
    exclusions: &mut StrSet,
    inclusions: &mut ToolInclusionSet,
    tools: &mut Vec<ToolDescriptor>,
)
    ensures
        final(tools)@ == old(tools)@.filter(
            |t: ToolDescriptor| tool_allowed(t.id@, old(exclusions)@, old(inclusions).spec_allowed()),
        ),
        (old(exclusions)@.len() > 0 || old(inclusions).spec_allowed() is Some) ==> (final(exclusions)@
            == Set::<Seq<char>>::empty() && final(inclusions).spec_allowed() is None),
        (old(exclusions)@.len() == 0 && old(inclusions).spec_allowed() is None) ==> (final(exclusions)@
            == old(exclusions)@ && final(inclusions).spec_allowed() is None),
{
    let ghost ex = exclusions@;
    let ghost inc = inclusions.spec_allowed();
    let ghost orig = tools@;
    let ghost pred = |t: ToolDescriptor| tool_allowed(t.id@, ex, inc);
    let mut rest: Vec<ToolDescriptor> = Vec::new();
    std::mem::swap(&mut rest, tools);
    let n = rest.len();
    let mut i: usize = 0;
    assert(orig.subrange(0, 0).filter(pred) =~= Seq::<ToolDescriptor>::empty()) by {
        reveal(Seq::filter);
    }
    while rest.len() > 0
        invariant
            n == orig.len(),
            i + rest@.len() == n,
            rest@ == orig.subrange(i as int, n as int),
            tools@ == orig.subrange(0, i as int).filter(pred),
            pred == (|t: ToolDescriptor| tool_allowed(t.id@, ex, inc)),
            ex == exclusions@,
            inc == inclusions.spec_allowed(),
        decreases rest@.len(),
    {
        let t = rest.remove(0);
        let allowed_in = match &inclusions.0 {
            Some(allowed) => allowed.contains(t.id.as_str()),
            None => true,
        };
        let keep = allowed_in && !exclusions.contains(t.id.as_str());
        proof {
            assert(orig.subrange(0, i + 1).drop_last() =~= orig.subrange(0, i as int));
            assert(orig.subrange(0, i + 1).last() == t);
            reveal(Seq::filter);
            assert(keep == pred(t));
            assert(rest@ =~= orig.subrange(i + 1, n as int));
        }
        if keep {
            tools.push(t);
        }
        i = i + 1;
    }
    assert(orig.subrange(0, n as int) =~= orig);
    let has_filters = !exclusions.is_empty() || inclusions.0.is_some();
    if has_filters {
        AccumulatedToolExclusions::apply(exclusions, AccumulatedToolExclusionsUpdate::Clear);
        AccumulatedToolInclusions::apply(inclusions, AccumulatedToolInclusionsUpdate::Clear);
    }
}

// ---------------------------------------------------------------------------
// Context message throttling
// ---------------------------------------------------------------------------

/// Per-key throttle entry: tracks when a context message was last injected.
#[derive(Debug, Clone, Copy, Default, PartialEq, Eq)]
pub struct ThrottleEntry {
    /// Step number when this key was last injected.
    pub last_step: usize,
    /// Hash of the content at last injection (re-inject if content changes).
    pub content_hash: u64,
}

/// Throttle state for context message injection.
pub struct ContextThrottleMap {
    pub entries: StrMap<ThrottleEntry>,
}

impl Default for ContextThrottleMap {
    fn default() -> (m: Self)
        ensures
            m.entries@ == Map::<Seq<char>, ThrottleEntry>::empty(),
    {
        ContextThrottleMap { entries: StrMap::new() }
    }
}

/// Update for the context throttle state.
pub enum ContextThrottleUpdate {
    /// Record that a key was injected at a given step with a content hash.
    Injected { key: String, step: usize, content_hash: u64 },
}

/// State key for context message throttle tracking.
pub struct ContextThrottleState;

impl ContextThrottleState {
    pub const KEY: &'static str = "__runtime.context_throttle";

    /// Record an injection: the key's entry becomes `(step, content_hash)`.
    pub fn apply(value: &mut ContextThrottleMap, update: ContextThrottleUpdate)
        ensures
            match update {
                ContextThrottleUpdate::Injected { key, step, content_hash } => final(value).entries@
                    == old(value).entries@.insert(
                    key@,
                    ThrottleEntry { last_step: step, content_hash },
                ),
            },
    {
        match update {
            ContextThrottleUpdate::Injected { key, step, content_hash } => {
                value.entries.insert(key, ThrottleEntry { last_step: step, content_hash });
            },
        }
    }
}

/// The step a context message is handled in: one past the number of
/// completed steps, or 1 when the run has no lifecycle record yet.
pub open spec fn current_step_spec(completed_steps: Option<usize>) -> int {
    match completed_steps {
        Some(n) => n + 1,
        None => 1,
    }
}

/// Whether a context message is injected: always when its cooldown is 0 or
/// the key was never injected; otherwise when its content changed or at
/// least `cooldown_turns` steps have passed since the last injection.
pub open spec fn should_inject_spec(
    entries: Map<Seq<char>, ThrottleEntry>,
    key: Seq<char>,
    cooldown_turns: u32,
    content_hash: u64,
    current_step: int,
) -> bool {
    if cooldown_turns == 0 || !entries.contains_key(key) {
        true
    } else {
        let e = entries[key];
        e.content_hash != content_hash || (if current_step >= e.last_step {
            current_step - e.last_step
        } else {
            0
        }) >= cooldown_turns
    }
}

/// Decide whether a scheduled context message is injected this step.
///
/// On injection the throttle update to commit is returned (the key, the
/// current step and the content hash); otherwise `None`.
/// `completed_steps` is the run's completed step count, when known.
pub fn handle_context_message(
    throttle: &ContextThrottleMap,
    key: &str,
    cooldown_turns: u32,
    content_hash: u64,
    completed_steps: Option<usize>,
) -> (r: Option<ContextThrottleUpdate>)
    requires
        completed_steps matches Some(n) ==> n < usize::MAX,
    ensures
        should_inject_spec(
            throttle.entries@,
            key@,
            cooldown_turns,
            content_hash,
            current_step_spec(completed_steps),
        ) <==> r is Some,
        r matches Some(ContextThrottleUpdate::Injected { key: k, step, content_hash: h }) ==> (k@
            == key@ && step == current_step_spec(completed_steps) && h == content_hash),
{
    let current_step: usize = match completed_steps {
        Some(n) => n + 1,
        None => 1,
    };
    let should_inject = if cooldown_turns == 0 {
        true
    } else {
        match throttle.entries.get(key) {
            None => true,
            Some(entry) => entry.content_hash != content_hash || current_step.saturating_sub(
                entry.last_step,
            ) >= cooldown_turns as usize,
        }
    };
    if should_inject {
        Some(
            ContextThrottleUpdate::Injected {
                key: String::from_str(key),
                step: current_step,
                content_hash,
            },
        )
    } else {
        None
    }
}

/// What `std::hash::DefaultHasher` (fresh from `new`, so not seeded per
/// process) gives for the text `s`; the same text gives the same hash under
/// one build of the standard library.
pub uninterp spec fn text_hash(s: Seq<char>) -> u64;

/// `DefaultHasher::new`, then `str::hash` and `finish`: the hash of the text.
#[verifier::external_body]
fn hash_text(s: &str) -> (h: u64)
    ensures
        h == text_hash(s@),
{
    let mut hasher = std::collections::hash_map::DefaultHasher::new();
    std::hash::Hash::hash(s, &mut hasher);
    std::hash::Hasher::finish(&hasher)
}

/// The JSON form of a context message's content: its text as the one text
/// block of the content list, `[{"type":"text","text":<text>}]`.
pub open spec fn content_json_spec(text: Seq<char>) -> JsonView {
    JsonView::Array(
        seq![JsonView::Object(seq![("type"@, JsonView::Str("text"@)), ("text"@, JsonView::Str(text))])],
    )
}

/// The content hash of a context message: the hash of its content's JSON text.
pub open spec fn content_hash_spec(text: Seq<char>) -> u64 {
    text_hash(json_value_text(content_json_spec(text)))
}

/// The JSON form of the content whose text is `text`.
fn content_json(text: &str) -> (v: JsonValue)
    ensures
        v.view() == content_json_spec(text@),
{
    let fields: Vec<(String, JsonValue)> = vec![
        (String::from_str("type"), JsonValue::String(String::from_str("text"))),
        (String::from_str("text"), JsonValue::String(String::from_str(text))),
    ];
    proof {
        lemma_fields_view(fields@);
        assert(fields_view(fields@) =~= seq![("type"@, JsonView::Str("text"@)), ("text"@, JsonView::Str(text@))]);
    }
    let block = JsonValue::Object(fields);
    let items: Vec<JsonValue> = vec![block];
    proof {
        lemma_items_view(items@);
        assert(items_view(items@) =~= seq![block.view()]);
    }
    JsonValue::Array(items)
}

/// Handler of scheduled context messages: applies the cooldown throttle.
pub struct ContextMessageHandler;

impl ContextMessageHandler {
    /// Handle a scheduled context message against the throttle state the
    /// step started with. When it is injected, the throttle update to commit
    /// (the key, the current step and the hash of the content's JSON text)
    /// is returned with the message to push onto the accumulated context
    /// messages; otherwise `None`, and nothing is committed.
    /// `completed_steps` is the run's completed step count, when known.
    pub fn handle_typed(
        throttle: &ContextThrottleMap,
        payload: ScheduledContextMessage,
        completed_steps: Option<usize>,
    ) -> (r: Option<(ContextThrottleUpdate, ScheduledContextMessage)>)
        requires
            completed_steps matches Some(n) ==> n < usize::MAX,
        ensures
            r is Some <==> should_inject_spec(
                throttle.entries@,
                payload.key@,
                payload.cooldown_turns,
                content_hash_spec(payload.text@),
                current_step_spec(completed_steps),
            ),
            r matches Some((u, m)) ==> (u matches ContextThrottleUpdate::Injected {
                key,
                step,
                content_hash,
            } && key@ == payload.key@ && step == current_step_spec(completed_steps) && content_hash
                == content_hash_spec(payload.text@) && m == payload),
    {
        let json = json_text(&content_json(payload.text.as_str()));
        let h = hash_text(json.as_str());
        match handle_context_message(
            throttle,
            payload.key.as_str(),
            payload.cooldown_turns,
            h,
            completed_steps,
        ) {
            Some(u) => Some((u, payload)),
            None => None,
        }
    }

    /// Commit what [`ContextMessageHandler::handle_typed`] returned: record
    /// the injection in the throttle state and push the message onto the
    /// accumulated context messages; nothing when the message was throttled.
    pub fn commit(
        throttle: &mut ContextThrottleMap,
        accumulated: &mut Vec<ScheduledContextMessage>,
        handled: Option<(ContextThrottleUpdate, ScheduledContextMessage)>,
    )
        ensures
            match handled {
                Some((ContextThrottleUpdate::Injected { key, step, content_hash }, m)) => {
                    &&& final(throttle).entries@ == old(throttle).entries@.insert(
                        key@,
                        ThrottleEntry { last_step: step, content_hash },
                    )
                    &&& final(accumulated)@ == old(accumulated)@.push(m)
                },
                None => {
                    &&& final(throttle).entries@ == old(throttle).entries@
                    &&& final(accumulated)@ == old(accumulated)@
                },
            },
    {
        match handled {
            Some((u, m)) => {
                ContextThrottleState::apply(throttle, u);
                AccumulatedContextMessages::apply(accumulated, AccumulatedContextMessagesUpdate::Push(m));
            },
            None => {},
        }
    }
}

/// Accumulated context messages for the current step.
pub struct AccumulatedContextMessages;

/// Update for [`AccumulatedContextMessages`].
pub enum AccumulatedContextMessagesUpdate {
    /// Append an accepted message.
    Push(ScheduledContextMessage),
    /// Remove all messages.
    Clear,
}

impl AccumulatedContextMessages {
    pub fn apply(value: &mut Vec<ScheduledContextMessage>, update: AccumulatedContextMessagesUpdate)
        ensures
            match update {
                AccumulatedContextMessagesUpdate::Push(m) => final(value)@ == old(value)@.push(m),
                AccumulatedContextMessagesUpdate::Clear => final(value)@ == Seq::<
                    ScheduledContextMessage,
                >::empty(),
            },
    {
        match update {
            AccumulatedContextMessagesUpdate::Push(m) => value.push(m),
            AccumulatedContextMessagesUpdate::Clear => value.clear(),
        }
    }
}

/// Read and clear the accumulated context messages: all of them, in the
/// order they were pushed.
pub fn take_accumulated_context_messages(value: &mut Vec<ScheduledContextMessage>) -> (r: Vec<
    ScheduledContextMessage,
>)
    ensures
        r@ == old(value)@,
        final(value)@ == Seq::<ScheduledContextMessage>::empty(),
{
    let mut taken: Vec<ScheduledContextMessage> = Vec::new();
    core::mem::swap(&mut taken, value);
    taken
}

/// Once a message is injected with a non-zero cooldown, the same key with the
/// same content is not injected again until `cooldown_turns` steps have passed.
pub proof fn lemma_cooldown_suppresses_repeat(
    entries: Map<Seq<char>, ThrottleEntry>,
    key: Seq<char>,
    cooldown_turns: u32,
    content_hash: u64,
    step: usize,
    later_step: int,
)
    requires
        cooldown_turns > 0,
        step <= later_step < step + cooldown_turns,
    ensures
        !should_inject_spec(
            entries.insert(key, ThrottleEntry { last_step: step, content_hash }),
            key,
            cooldown_turns,
            content_hash,
            later_step,
        ),
        should_inject_spec(
            entries.insert(key, ThrottleEntry { last_step: step, content_hash }),
            key,
            cooldown_turns,
            content_hash,
            step + cooldown_turns,
        ),
{
}

// ---------------------------------------------------------------------------
// Tool intercept accumulator
// ---------------------------------------------------------------------------

/// A decision of a before-tool-execute hook on whether a tool call proceeds.
pub enum ToolInterceptPayload<S, R> {
    /// Block the call.
    Block { reason: String },
    /// Suspend the call with a ticket.
    Suspend(S),
    /// Short-circuit the call with a result.
    SetResult(R),
}

/// The priority of an intercept decision: Block > Suspend > SetResult.
pub open spec fn intercept_priority<S, R>(p: ToolInterceptPayload<S, R>) -> int {
    match p {
        ToolInterceptPayload::Block { .. } => 3,
        ToolInterceptPayload::Suspend(_) => 2,
        ToolInterceptPayload::SetResult(_) => 1,
    }
}

fn priority_of<S, R>(p: &ToolInterceptPayload<S, R>) -> (r: u8)
    ensures
        r == intercept_priority(*p),
{
    match p {
        ToolInterceptPayload::Block { .. } => 3,
        ToolInterceptPayload::Suspend(_) => 2,
        ToolInterceptPayload::SetResult(_) => 1,
    }
}

/// The kept decision after offering `p`: `p` when nothing is kept or it
/// outranks the kept decision, else the kept decision.
pub open spec fn offer_spec<S, R>(
    kept: Option<ToolInterceptPayload<S, R>>,
    p: ToolInterceptPayload<S, R>,
) -> Option<ToolInterceptPayload<S, R>> {
    match kept {
        None => Some(p),
        Some(e) => if intercept_priority(p) > intercept_priority(e) {
            Some(p)
        } else {
            Some(e)
        },
    }
}

/// The kept decision after offering `ps`, in order, to an empty accumulator.
pub open spec fn offers_spec<S, R>(ps: Seq<ToolInterceptPayload<S, R>>) -> Option<
    ToolInterceptPayload<S, R>,
>
    decreases ps.len(),
{
    if ps.len() == 0 {
        None
    } else {
        offer_spec(offers_spec(ps.drop_last()), ps.last())
    }
}

/// Update for [`AccumulatedToolIntercept`].
pub enum AccumulatedToolInterceptUpdate<S, R> {
    /// Offer a decision; it is kept only if it outranks the current one.
    Offer(ToolInterceptPayload<S, R>),
    /// Clear the accumulator.
    Clear,
}

/// Accumulated tool intercept decision for the current tool call: the
/// highest-priority decision wins, and of two with the same priority the
/// first one stays.
pub struct AccumulatedToolIntercept;

impl AccumulatedToolIntercept {
    pub const KEY: &'static str = "__runtime.accumulated_tool_intercept";

    pub fn apply<S, R>(
        value: &mut Option<ToolInterceptPayload<S, R>>,
        update: AccumulatedToolInterceptUpdate<S, R>,
    )
        ensures
            match update {
                AccumulatedToolInterceptUpdate::Offer(p) => *final(value) == offer_spec(*old(value), p),
                AccumulatedToolInterceptUpdate::Clear => *final(value) is None,
            },
    {
        match update {
            AccumulatedToolInterceptUpdate::Offer(payload) => {
                let replace = match &*value {
                    None => true,
                    Some(existing) => priority_of(&payload) > priority_of(existing),
                };
                if replace {
                    *value = Some(payload);
                }
            },
            AccumulatedToolInterceptUpdate::Clear => {
                *value = None;
            },
        }
    }
}

/// After offers that all rank below `bound`, the kept decision ranks below
/// it too.
proof fn lemma_offers_below<S, R>(ps: Seq<ToolInterceptPayload<S, R>>, bound: int)
    requires
        forall|j: int| 0 <= j < ps.len() ==> intercept_priority(#[trigger] ps[j]) < bound,
    ensures
        offers_spec(ps) matches Some(a) ==> intercept_priority(a) < bound,
        ps.len() > 0 ==> offers_spec(ps) is Some,
    decreases ps.len(),
{
    if ps.len() > 0 {
        let init = ps.drop_last();
        assert forall|j: int| 0 <= j < init.len() implies intercept_priority(#[trigger] init[j])
            < bound by {
            assert(init[j] == ps[j]);
        }
        lemma_offers_below(init, bound);
        assert(intercept_priority(ps[ps.len() - 1]) < bound);
    }
}

/// Of several offers to an empty accumulator, the first one of the highest
/// priority is the decision that stays: when `ps[i]` ranks at least as high
/// as every offer and strictly higher than every offer before it, the kept
/// decision is `ps[i]`.
pub proof fn lemma_first_highest_stays<S, R>(ps: Seq<ToolInterceptPayload<S, R>>, i: int)
    requires
        0 <= i < ps.len(),
        forall|j: int| 0 <= j < ps.len() ==> intercept_priority(#[trigger] ps[j]) <= intercept_priority(ps[i]),
        forall|j: int| 0 <= j < i ==> intercept_priority(#[trigger] ps[j]) < intercept_priority(ps[i]),
    ensures
        offers_spec(ps) == Some(ps[i]),
    decreases ps.len(),
{
    let init = ps.drop_last();
    if i == ps.len() - 1 {
        assert forall|j: int| 0 <= j < init.len() implies intercept_priority(#[trigger] init[j])
            < intercept_priority(ps[i]) by {
            assert(init[j] == ps[j]);
        }
        lemma_offers_below(init, intercept_priority(ps[i]));
    } else {
        assert forall|j: int| 0 <= j < init.len() implies intercept_priority(#[trigger] init[j])
            <= intercept_priority(init[i]) by {
            assert(init[j] == ps[j]);
        }
        assert forall|j: int| 0 <= j < i implies intercept_priority(#[trigger] init[j])
            < intercept_priority(init[i]) by {
            assert(init[j] == ps[j]);
        }
        lemma_first_highest_stays(init, i);
        assert(intercept_priority(ps[ps.len() - 1]) <= intercept_priority(ps[i]));
    }
}

} // verus!
