//! Context messages scheduled by hooks: where they are placed in the
//! prompt, and the durable store that keeps them across the loop.

use vstd::prelude::*;
use vstd::string::StringExecFns;

use crate::message::{Message, Role, Visibility};
use crate::strmap::StrMap;
use crate::text::{chars_of, str_starts_with};

verus! {

/// Where a context message is placed in the prompt.
#[derive(Debug, Clone, Copy, PartialEq, Eq)]
pub enum ContextMessageTarget {
    /// Right after the base system prompt.
    System,
    /// After all leading system messages.
    Session,
    /// After the system messages, before the conversation history.
    Conversation,
    /// At the very end of the prompt.
    SuffixSystem,
}

/// A context message scheduled for injection into the prompt.
#[derive(Debug)]
pub struct ScheduledContextMessage {
    /// Key for upsert and throttling.
    pub key: String,
    /// Role of the injected message.
    pub role: Role,
    /// Text of the injected message.
    pub text: String,
    /// Visibility of the injected message.
    pub visibility: Visibility,
    /// Where the message goes.
    pub target: ContextMessageTarget,
    /// Ordering among messages with the same target.
    pub priority: i32,
    /// Whether the message survives ephemeral cleanup.
    pub persistent: bool,
    /// Whether the message is removed after one emission.
    pub consume_after_emit: bool,
    /// Steps to wait before injecting the same content again.
    pub cooldown_turns: u32,
    /// Token estimate of the injected message.
    pub estimated_tokens: usize,
}

/// The prompt message a context message becomes.
pub open spec fn as_message(e: ScheduledContextMessage) -> Message {
    Message {
        role: e.role,
        visibility: e.visibility,
        text: e.text,
        tool_calls: None,
        tool_call_id: None,
        estimated_tokens: e.estimated_tokens,
    }
}

/// The messages of the context messages aimed at `t`, in order.
pub open spec fn targeted(es: Seq<ScheduledContextMessage>, t: ContextMessageTarget) -> Seq<Message>
    decreases es.len(),
{
    if es.len() == 0 {
        Seq::empty()
    } else if es.last().target == t {
        targeted(es.drop_last(), t).push(as_message(es.last()))
    } else {
        targeted(es.drop_last(), t)
    }
}

/// The number of leading system messages of `h`.
pub open spec fn leading_system(h: Seq<Message>) -> nat
    decreases h.len(),
{
    if h.len() == 0 || h[0].role != Role::System {
        0
    } else {
        1 + leading_system(h.drop_first())
    }
}

/// `xs` inserted into `h` before position `p` (nothing changes when `xs`
/// is empty).
pub open spec fn insert_at(h: Seq<Message>, p: int, xs: Seq<Message>) -> Seq<Message> {
    if xs.len() == 0 {
        h
    } else {
        h.subrange(0, p) + xs + h.subrange(p, h.len() as int)
    }
}

/// The prompt after placing context messages: system-targeted ones after
/// the base system prompt, session-targeted ones after all leading system
/// messages, conversation-targeted ones after the (then) leading system
/// messages, and suffix ones at the end.
pub open spec fn placed(h: Seq<Message>, es: Seq<ScheduledContextMessage>, has_system_prompt: bool) -> Seq<
    Message,
> {
    let h1 = insert_at(
        h,
        if has_system_prompt {
            1
        } else {
            0
        },
        targeted(es, ContextMessageTarget::System),
    );
    let h2 = insert_at(h1, leading_system(h1) as int, targeted(es, ContextMessageTarget::Session));
    let h3 = insert_at(
        h2,
        leading_system(h2) as int,
        targeted(es, ContextMessageTarget::Conversation),
    );
    h3 + targeted(es, ContextMessageTarget::SuffixSystem)
}

proof fn lemma_leading_bound(h: Seq<Message>)
    ensures
        leading_system(h) <= h.len(),
    decreases h.len(),
{
    if h.len() > 0 && h[0].role == Role::System {
        lemma_leading_bound(h.drop_first());
    }
}

/// The number of leading system messages.
fn count_leading_system(h: &Vec<Message>) -> (r: usize)
    ensures
        r == leading_system(h@),
        r <= h@.len(),
{
    let n = h.len();
    let mut i: usize = 0;
    assert(h@.subrange(0, n as int) =~= h@);
    while i < n && matches!(h[i].role, Role::System)
        invariant
            n == h@.len(),
            i <= n,
            leading_system(h@) == i + leading_system(h@.subrange(i as int, n as int)),
        decreases n - i,
    {
        proof {
            assert(h@.subrange(i as int, n as int).drop_first() =~= h@.subrange(i + 1, n as int));
        }
        i = i + 1;
    }
    proof {
        if i < n {
            assert(h@.subrange(i as int, n as int)[0] == h@[i as int]);
        } else {
            assert(h@.subrange(i as int, n as int).len() == 0);
        }
    }
    i
}

/// Insert `items`, in order, before position `pos`.
fn insert_all(messages: &mut Vec<Message>, pos: usize, items: Vec<Message>)
    requires
        pos <= old(messages)@.len(),
    ensures
        final(messages)@ == insert_at(old(messages)@, pos as int, items@),
{
    let ghost base = messages@;
    let ghost orig = items@;
    let total = items.len();
    let mut items = items;
    let mut k: usize = 0;
    while items.len() > 0
        invariant
            total == orig.len(),
            pos <= base.len(),
            k <= orig.len(),
            items@ == orig.subrange(k as int, orig.len() as int),
            messages@ == base.subrange(0, pos as int) + orig.subrange(0, k as int) + base.subrange(
                pos as int,
                base.len() as int,
            ),
        decreases items@.len(),
    {
        let m = items.remove(0);
        proof {
            assert(orig[k as int] == m);
        }
        let cur = messages.len();
        assert(pos + k <= cur);
        messages.insert(pos + k, m);
        proof {
            assert(orig.subrange(0, k + 1) =~= orig.subrange(0, k as int).push(m));
            assert(items@ =~= orig.subrange(k + 1, orig.len() as int));
        }
        k = k + 1;
        assert(messages@ =~= base.subrange(0, pos as int) + orig.subrange(0, k as int)
            + base.subrange(pos as int, base.len() as int));
    }
    assert(orig.subrange(0, k as int) =~= orig);
    assert(orig.len() == 0 ==> messages@ =~= base);
}

/// Insert context messages into the message list at their declared target
/// positions.
pub fn apply_context_messages(
    messages: &mut Vec<Message>,
    context_messages: Vec<ScheduledContextMessage>,
    has_system_prompt: bool,
)
    requires
        has_system_prompt && targeted(context_messages@, ContextMessageTarget::System).len() > 0
            ==> old(messages)@.len() >= 1,
    ensures
        final(messages)@ == placed(old(messages)@, context_messages@, has_system_prompt),
{
    let ghost orig = context_messages@;
    let total = context_messages.len();
    let mut entries = context_messages;
    let mut system: Vec<Message> = Vec::new();
    let mut session: Vec<Message> = Vec::new();
    let mut conversation: Vec<Message> = Vec::new();
    let mut suffix: Vec<Message> = Vec::new();
    let mut i: usize = 0;
    while entries.len() > 0
        invariant
            total == orig.len(),
            i <= orig.len(),
            entries@ == orig.subrange(i as int, orig.len() as int),
            system@ == targeted(orig.subrange(0, i as int), ContextMessageTarget::System),
            session@ == targeted(orig.subrange(0, i as int), ContextMessageTarget::Session),
            conversation@ == targeted(
                orig.subrange(0, i as int),
                ContextMessageTarget::Conversation,
            ),
            suffix@ == targeted(orig.subrange(0, i as int), ContextMessageTarget::SuffixSystem),
        decreases entries@.len(),
    {
        let e = entries.remove(0);
        proof {
            assert(orig[i as int] == e);
            assert(orig.subrange(0, i + 1).drop_last() =~= orig.subrange(0, i as int));
            assert(orig.subrange(0, i + 1).last() == e);
            assert(entries@ =~= orig.subrange(i + 1, orig.len() as int));
        }
        let target = e.target;
        let msg = Message {
            role: e.role,
            visibility: e.visibility,
            text: e.text,
            tool_calls: None,
            tool_call_id: None,
            estimated_tokens: e.estimated_tokens,
        };
        match target {
            ContextMessageTarget::System => system.push(msg),
            ContextMessageTarget::Session => session.push(msg),
            ContextMessageTarget::Conversation => conversation.push(msg),
            ContextMessageTarget::SuffixSystem => suffix.push(msg),
        }
        i = i + 1;
    }
    proof {
        assert(orig.subrange(0, i as int) =~= orig);
    }
    let system_insert_pos: usize = if has_system_prompt {
        1
    } else {
        0
    };
    if system.len() > 0 {
        insert_all(messages, system_insert_pos, system);
    } else {
        assert(insert_at(old(messages)@, system_insert_pos as int, system@) =~= old(messages)@);
    }
    let session_insert_pos = count_leading_system(messages);
    insert_all(messages, session_insert_pos, session);
    let conversation_insert_pos = count_leading_system(messages);
    insert_all(messages, conversation_insert_pos, conversation);
    messages.append(&mut suffix);
}

proof fn lemma_targeted_partition(es: Seq<ScheduledContextMessage>)
    ensures
        targeted(es, ContextMessageTarget::System).len() + targeted(
            es,
            ContextMessageTarget::Session,
        ).len() + targeted(es, ContextMessageTarget::Conversation).len() + targeted(
            es,
            ContextMessageTarget::SuffixSystem,
        ).len() == es.len(),
    decreases es.len(),
{
    if es.len() > 0 {
        lemma_targeted_partition(es.drop_last());
    }
}

/// Placement loses and duplicates nothing: the prompt grows by exactly the
/// number of context messages placed.
pub proof fn lemma_placed_len(h: Seq<Message>, es: Seq<ScheduledContextMessage>, has_system_prompt: bool)
    requires
        has_system_prompt && targeted(es, ContextMessageTarget::System).len() > 0 ==> h.len() >= 1,
    ensures
        placed(h, es, has_system_prompt).len() == h.len() + es.len(),
{
    lemma_targeted_partition(es);
    let h1 = insert_at(
        h,
        if has_system_prompt {
            1
        } else {
            0
        },
        targeted(es, ContextMessageTarget::System),
    );
    lemma_leading_bound(h1);
    let h2 = insert_at(h1, leading_system(h1) as int, targeted(es, ContextMessageTarget::Session));
    lemma_leading_bound(h2);
}

/// Where the suffix and the base system prompt end up: the prompt ends with
/// the suffix-targeted context messages, in their order, after everything
/// else; and when the prompt has a base system prompt (a leading system
/// message), it stays the first message.
pub proof fn lemma_placed_ends(h: Seq<Message>, es: Seq<ScheduledContextMessage>, has_system_prompt: bool)
    requires
        has_system_prompt && targeted(es, ContextMessageTarget::System).len() > 0 ==> h.len() >= 1,
    ensures
        ({
            let r = placed(h, es, has_system_prompt);
            let k = targeted(es, ContextMessageTarget::SuffixSystem).len();
            &&& k <= r.len()
            &&& r.subrange(r.len() - k, r.len() as int) == targeted(
                es,
                ContextMessageTarget::SuffixSystem,
            )
            &&& has_system_prompt && h.len() >= 1 && h[0].role == Role::System ==> r[0] == h[0]
        }),
{
    lemma_placed_len(h, es, has_system_prompt);
    lemma_targeted_partition(es);
    let sys = targeted(es, ContextMessageTarget::System);
    let h1 = insert_at(h, if has_system_prompt { 1 } else { 0 }, sys);
    lemma_leading_bound(h1);
    let h2 = insert_at(h1, leading_system(h1) as int, targeted(es, ContextMessageTarget::Session));
    lemma_leading_bound(h2);
    let h3 = insert_at(
        h2,
        leading_system(h2) as int,
        targeted(es, ContextMessageTarget::Conversation),
    );
    let suf = targeted(es, ContextMessageTarget::SuffixSystem);
    let r = placed(h, es, has_system_prompt);
    assert(r == h3 + suf);
    assert(r.subrange(r.len() - suf.len(), r.len() as int) =~= suf);
    if has_system_prompt && h.len() >= 1 && h[0].role == Role::System {
        assert(h1[0] == h[0]);
        assert(leading_system(h1) >= 1);
        assert(h2[0] == h[0]);
        assert(leading_system(h2) >= 1);
        assert(h3[0] == h[0]);
        assert(r[0] == h3[0]);
    }
}

proof fn lemma_insert_keeps_tail(x: Seq<Message>, q: int, xs: Seq<Message>, t: int)
    requires
        0 <= t <= x.len(),
        0 <= q <= x.len() - t,
    ensures
        insert_at(x, q, xs).len() == x.len() + xs.len(),
        insert_at(x, q, xs).subrange(x.len() + xs.len() - t, (x.len() + xs.len()) as int) == x.subrange(
            x.len() - t,
            x.len() as int,
        ),
{
    let y = insert_at(x, q, xs);
    assert(y.subrange(x.len() + xs.len() - t, (x.len() + xs.len()) as int) =~= x.subrange(
        x.len() - t,
        x.len() as int,
    ));
}

proof fn lemma_leading_before_tail(x: Seq<Message>, t: int)
    requires
        0 < t <= x.len(),
        x[x.len() - t].role != Role::System,
    ensures
        leading_system(x) <= x.len() - t,
    decreases x.len(),
{
    if x.len() - t > 0 && x[0].role == Role::System {
        let d = x.drop_first();
        assert(d[d.len() - t] == x[x.len() - t]);
        lemma_leading_before_tail(d, t);
    }
}

proof fn lemma_leading_all(h: Seq<Message>)
    ensures
        leading_system(h) <= h.len(),
        leading_system(h) < h.len() ==> h[leading_system(h) as int].role != Role::System,
    decreases h.len(),
{
    if h.len() > 0 && h[0].role == Role::System {
        let d = h.drop_first();
        lemma_leading_all(d);
        if leading_system(h) < h.len() {
            assert(d[leading_system(d) as int] == h[leading_system(h) as int]);
        }
    }
}

/// The conversation keeps its place: everything after the prompt's leading
/// system messages stays together, in order, right before the suffix
/// messages at the end; context messages placed elsewhere go before it.
/// (`has_system_prompt` means the prompt starts with its system message.)
pub proof fn lemma_placed_keeps_history(h: Seq<Message>, es: Seq<ScheduledContextMessage>, has_system_prompt: bool)
    requires
        has_system_prompt ==> h.len() >= 1 && h[0].role == Role::System,
    ensures
        ({
            let r = placed(h, es, has_system_prompt);
            let k = targeted(es, ContextMessageTarget::SuffixSystem).len();
            let t = h.len() - leading_system(h);
            &&& k + t <= r.len()
            &&& r.subrange(r.len() - k - t, r.len() - k) == h.subrange(
                leading_system(h) as int,
                h.len() as int,
            )
        }),
{
    lemma_leading_all(h);
    let ls = leading_system(h) as int;
    let t = h.len() - ls;
    let sys = targeted(es, ContextMessageTarget::System);
    let p1: int = if has_system_prompt { 1 } else { 0 };
    assert(p1 <= ls);
    lemma_insert_keeps_tail(h, p1, sys, t);
    let h1 = insert_at(h, p1, sys);
    lemma_leading_bound(h1);
    if t > 0 {
        assert(h1[h1.len() - t] == h.subrange(h.len() - t, h.len() as int)[0]);
        lemma_leading_before_tail(h1, t);
    }
    let ses = targeted(es, ContextMessageTarget::Session);
    lemma_insert_keeps_tail(h1, leading_system(h1) as int, ses, t);
    let h2 = insert_at(h1, leading_system(h1) as int, ses);
    lemma_leading_bound(h2);
    if t > 0 {
        assert(h2[h2.len() - t] == h.subrange(h.len() - t, h.len() as int)[0]);
        lemma_leading_before_tail(h2, t);
    }
    let conv = targeted(es, ContextMessageTarget::Conversation);
    lemma_insert_keeps_tail(h2, leading_system(h2) as int, conv, t);
    let h3 = insert_at(h2, leading_system(h2) as int, conv);
    let suf = targeted(es, ContextMessageTarget::SuffixSystem);
    let r = placed(h, es, has_system_prompt);
    assert(r == h3 + suf);
    assert(r.subrange(r.len() - suf.len() - t, r.len() - suf.len()) =~= h3.subrange(
        h3.len() - t,
        h3.len() as int,
    ));
}

// ---------------------------------------------------------------------------
// Durable context message store
// ---------------------------------------------------------------------------

/// Durable map of context messages keyed by message key.
pub struct ContextMessageStoreValue {
    pub messages: StrMap<ScheduledContextMessage>,
}

impl Default for ContextMessageStoreValue {
    fn default() -> (v: Self)
        ensures
            v.messages@ == Map::<Seq<char>, ScheduledContextMessage>::empty(),
    {
        ContextMessageStoreValue { messages: StrMap::new() }
    }
}

/// Update actions for [`ContextMessageStore`].
pub enum ContextMessageAction {
    /// Add or update a context message by key.
    Upsert(ScheduledContextMessage),
    /// Remove a context message by key.
    Remove(String),
    /// Remove all messages with keys starting with prefix.
    RemoveByPrefix(String),
    /// Remove all non-persistent messages (ephemeral lifecycle cleanup).
    RemoveEphemeral,
    /// Remove all messages flagged `consume_after_emit`.
    ConsumeAfterEmit,
    /// Clear all messages.
    Clear,
}

/// Which messages a bulk removal keeps.
pub enum RetainRule {
    /// Keys that do not start with the prefix.
    KeyWithoutPrefix(String),
    /// Persistent messages.
    Persistent,
    /// Messages not flagged `consume_after_emit`.
    NotConsumedAfterEmit,
}

/// Whether `rule` keeps the entry `(k, m)`.
pub open spec fn keeps(rule: RetainRule, k: Seq<char>, m: ScheduledContextMessage) -> bool {
    match rule {
        RetainRule::KeyWithoutPrefix(p) => !p@.is_prefix_of(k),
        RetainRule::Persistent => m.persistent,
        RetainRule::NotConsumedAfterEmit => !m.consume_after_emit,
    }
}

/// The entries of `m` that `rule` keeps.
pub open spec fn retained(
    m: Map<Seq<char>, ScheduledContextMessage>,
    rule: RetainRule,
) -> Map<Seq<char>, ScheduledContextMessage> {
    Map::new(|k: Seq<char>| m.contains_key(k) && keeps(rule, k, m[k]), |k: Seq<char>| m[k])
}

fn keeps_exec(rule: &RetainRule, k: &String, m: &ScheduledContextMessage) -> (r: bool)
    ensures
        r == keeps(*rule, k@, *m),
{
    match rule {
        RetainRule::KeyWithoutPrefix(p) => !str_starts_with(k.as_str(), p.as_str()),
        RetainRule::Persistent => m.persistent,
        RetainRule::NotConsumedAfterEmit => !m.consume_after_emit,
    }
}

/// The map holding only the entries that `rule` keeps.
fn retain_messages(map: StrMap<ScheduledContextMessage>, rule: &RetainRule) -> (r: StrMap<
    ScheduledContextMessage,
>)
    ensures
        r@ == retained(map@, *rule),
{
    let ghost old_map = map@;
    let mut entries = map.into_entries();
    let ghost all = entries@;
    let mut out: StrMap<ScheduledContextMessage> = StrMap::new();
    while entries.len() > 0
        invariant
            entries@ == all.subrange(0, entries@.len() as int),
            entries@.len() <= all.len(),
            forall|i: int|
                0 <= i < all.len() ==> old_map.contains_key(#[trigger] all[i].0@) && old_map[all[i].0@]
                    == all[i].1,
            forall|k: Seq<char>|
                old_map.contains_key(k) ==> exists|i: int| 0 <= i < all.len() && #[trigger] all[i].0@ == k,
            forall|i: int, j: int|
                0 <= i < all.len() && 0 <= j < all.len() && i != j ==> all[i].0@ != all[j].0@,
            forall|k: Seq<char>|
                #[trigger] out@.contains_key(k) <==> (retained(old_map, *rule).contains_key(k) && exists|
                    i: int,
                | entries@.len() <= i < all.len() && #[trigger] all[i].0@ == k),
            forall|k: Seq<char>| #[trigger] out@.contains_key(k) ==> out@[k] == old_map[k],
        decreases entries@.len(),
    {
        let ghost idx = entries@.len() - 1;
        let popped = entries.pop();
        match popped {
            Some((k, m)) => {
                proof {
                    assert(all[idx].0@ == k@);
                    assert(entries@ =~= all.subrange(0, idx));
                }
                if keeps_exec(rule, &k, &m) {
                    let ghost kk = k@;
                    out.insert(k, m);
                    proof {
                        assert forall|q: Seq<char>|
                            (retained(old_map, *rule).contains_key(q) && exists|i: int|
                                idx <= i < all.len() && #[trigger] all[i].0@ == q) implies #[trigger] out@.contains_key(q) by {
                            if q != kk {
                                let i = choose|i: int| idx <= i < all.len() && #[trigger] all[i].0@ == q;
                                assert(i != idx);
                            }
                        }
                    }
                } else {
                    proof {
                        assert forall|q: Seq<char>|
                            (retained(old_map, *rule).contains_key(q) && exists|i: int|
                                idx <= i < all.len() && #[trigger] all[i].0@ == q) implies #[trigger] out@.contains_key(q) by {
                            let i = choose|i: int| idx <= i < all.len() && #[trigger] all[i].0@ == q;
                            if i == idx {
                                assert(old_map[q] == m);
                            }
                        }
                    }
                }
            },
            None => {},
        }
    }
    proof {
        assert forall|q: Seq<char>| retained(old_map, *rule).contains_key(q) implies #[trigger]
            out@.contains_key(q) by {
            let i = choose|i: int| 0 <= i < all.len() && #[trigger] all[i].0@ == q;
        }
        assert(out@ =~= retained(old_map, *rule));
    }
    out
}

/// Persistent store for context messages across the agent loop.
///
/// Messages are keyed by their `key` field for upsert semantics.
pub struct ContextMessageStore;

/// The store after an update.
pub open spec fn context_store_apply(
    m: Map<Seq<char>, ScheduledContextMessage>,
    update: ContextMessageAction,
) -> Map<Seq<char>, ScheduledContextMessage> {
    match update {
        ContextMessageAction::Upsert(msg) => m.insert(msg.key@, msg),
        ContextMessageAction::Remove(key) => m.remove(key@),
        ContextMessageAction::RemoveByPrefix(prefix) => retained(
            m,
            RetainRule::KeyWithoutPrefix(prefix),
        ),
        ContextMessageAction::RemoveEphemeral => retained(m, RetainRule::Persistent),
        ContextMessageAction::ConsumeAfterEmit => retained(m, RetainRule::NotConsumedAfterEmit),
        ContextMessageAction::Clear => Map::empty(),
    }
}

impl ContextMessageStore {
    pub const KEY: &'static str = "__runtime.context_message_store";

    pub fn apply(value: &mut ContextMessageStoreValue, update: ContextMessageAction)
        ensures
            final(value).messages@ == context_store_apply(old(value).messages@, update),
    {
        match update {
            ContextMessageAction::Upsert(msg) => {
                let key = String::from_str(msg.key.as_str());
                value.messages.insert(key, msg);
            },
            ContextMessageAction::Remove(key) => {
                value.messages.remove(key.as_str());
            },
            ContextMessageAction::RemoveByPrefix(prefix) => {
                let rule = RetainRule::KeyWithoutPrefix(prefix);
                let mut map = StrMap::new();
                core::mem::swap(&mut map, &mut value.messages);
                value.messages = retain_messages(map, &rule);
            },
            ContextMessageAction::RemoveEphemeral => {
                let mut map = StrMap::new();
                core::mem::swap(&mut map, &mut value.messages);
                value.messages = retain_messages(map, &RetainRule::Persistent);
            },
            ContextMessageAction::ConsumeAfterEmit => {
                let mut map = StrMap::new();
                core::mem::swap(&mut map, &mut value.messages);
                value.messages = retain_messages(map, &RetainRule::NotConsumedAfterEmit);
            },
            ContextMessageAction::Clear => {
                value.messages.clear();
            },
        }
    }
}

// ---------------------------------------------------------------------------
// Deterministic ordering
// ---------------------------------------------------------------------------

/// The rank of a target in the ordering of context messages.
pub open spec fn target_rank(t: ContextMessageTarget) -> int {
    match t {
        ContextMessageTarget::System => 0,
        ContextMessageTarget::Session => 1,
        ContextMessageTarget::Conversation => 2,
        ContextMessageTarget::SuffixSystem => 3,
    }
}

fn target_rank_of(t: ContextMessageTarget) -> (r: u8)
    ensures
        r == target_rank(t),
{
    match t {
        ContextMessageTarget::System => 0,
        ContextMessageTarget::Session => 1,
        ContextMessageTarget::Conversation => 2,
        ContextMessageTarget::SuffixSystem => 3,
    }
}

/// `a` comes before `b` in lexicographic order of characters (which is the
/// byte order of their UTF-8 encodings, the order of `str`).
pub open spec fn lex_lt(a: Seq<char>, b: Seq<char>) -> bool
    decreases a.len(),
{
    if a.len() == 0 {
        b.len() > 0
    } else if b.len() == 0 {
        false
    } else if a[0] != b[0] {
        a[0] < b[0]
    } else {
        lex_lt(a.drop_first(), b.drop_first())
    }
}

proof fn lemma_lex_trichotomy(a: Seq<char>, b: Seq<char>)
    ensures
        a == b || lex_lt(a, b) || lex_lt(b, a),
        !(lex_lt(a, b) && lex_lt(b, a)),
        !lex_lt(a, a),
    decreases a.len(),
{
    if a.len() > 0 && b.len() > 0 && a[0] == b[0] {
        lemma_lex_trichotomy(a.drop_first(), b.drop_first());
        if a.drop_first() == b.drop_first() {
            assert(a.len() == b.len());
            assert forall|i: int| 0 <= i < a.len() implies a[i] == b[i] by {
                if i > 0 {
                    assert(a[i] == a.drop_first()[i - 1]);
                    assert(b[i] == b.drop_first()[i - 1]);
                }
            }
            assert(a =~= b);
        }
    } else if a.len() == 0 && b.len() == 0 {
        assert(a =~= b);
    }
    if a.len() > 0 {
        lemma_lex_trichotomy(a.drop_first(), a.drop_first());
    }
}

proof fn lemma_lex_transitive(a: Seq<char>, b: Seq<char>, c: Seq<char>)
    requires
        lex_lt(a, b),
        lex_lt(b, c),
    ensures
        lex_lt(a, c),
    decreases a.len(),
{
    if a.len() > 0 && b.len() > 0 && c.len() > 0 && a[0] == b[0] && b[0] == c[0] {
        lemma_lex_transitive(a.drop_first(), b.drop_first(), c.drop_first());
    }
}

fn lex_lt_exec(a: &str, b: &str) -> (r: bool)
    ensures
        r == lex_lt(a@, b@),
{
    let x = chars_of(a);
    let y = chars_of(b);
    let n = x.len();
    let m = y.len();
    let mut i: usize = 0;
    assert(a@.subrange(0, n as int) =~= a@);
    assert(b@.subrange(0, m as int) =~= b@);
    while i < n && i < m && x[i] == y[i]
        invariant
            x@ == a@,
            y@ == b@,
            n == x@.len(),
            m == y@.len(),
            i <= n,
            i <= m,
            lex_lt(a@, b@) == lex_lt(a@.subrange(i as int, n as int), b@.subrange(i as int, m as int)),
        decreases n - i,
    {
        proof {
            let sa = a@.subrange(i as int, n as int);
            let sb = b@.subrange(i as int, m as int);
            assert(sa.drop_first() =~= a@.subrange(i + 1, n as int));
            assert(sb.drop_first() =~= b@.subrange(i + 1, m as int));
            assert(sa[0] == x@[i as int]);
            assert(sb[0] == y@[i as int]);
        }
        i = i + 1;
    }
    proof {
        let sa = a@.subrange(i as int, n as int);
        let sb = b@.subrange(i as int, m as int);
        if i < n && i < m {
            assert(sa[0] == x@[i as int]);
            assert(sb[0] == y@[i as int]);
        }
    }
    if i == n {
        i < m
    } else if i == m {
        false
    } else {
        x[i] < y[i]
    }
}

/// `a` comes before `b` by target, then priority, then key.
pub open spec fn msg_before(a: ScheduledContextMessage, b: ScheduledContextMessage) -> bool {
    target_rank(a.target) < target_rank(b.target) || (target_rank(a.target) == target_rank(b.target)
        && (a.priority < b.priority || (a.priority == b.priority && lex_lt(a.key@, b.key@))))
}

fn msg_before_exec(a: &ScheduledContextMessage, b: &ScheduledContextMessage) -> (r: bool)
    ensures
        r == msg_before(*a, *b),
{
    let ra = target_rank_of(a.target);
    let rb = target_rank_of(b.target);
    if ra != rb {
        ra < rb
    } else if a.priority != b.priority {
        a.priority < b.priority
    } else {
        lex_lt_exec(a.key.as_str(), b.key.as_str())
    }
}

/// `a` and `b` have the same target rank, priority and key.
pub open spec fn same_place(a: ScheduledContextMessage, b: ScheduledContextMessage) -> bool {
    target_rank(a.target) == target_rank(b.target) && a.priority == b.priority && a.key@ == b.key@
}

proof fn lemma_before_order(a: ScheduledContextMessage, b: ScheduledContextMessage, c: ScheduledContextMessage)
    ensures
        msg_before(a, b) || msg_before(b, a) || same_place(a, b),
        !(msg_before(a, b) && msg_before(b, a)),
        !msg_before(a, a),
        msg_before(a, b) && msg_before(b, c) ==> msg_before(a, c),
        same_place(a, b) ==> (msg_before(a, c) == msg_before(b, c) && msg_before(c, a) == msg_before(
            c,
            b,
        )),
{
    lemma_lex_trichotomy(a.key@, b.key@);
    lemma_lex_trichotomy(a.key@, a.key@);
    if msg_before(a, b) && msg_before(b, c) && target_rank(a.target) == target_rank(b.target)
        && target_rank(b.target) == target_rank(c.target) && a.priority == b.priority && b.priority
        == c.priority {
        lemma_lex_transitive(a.key@, b.key@, c.key@);
    }
}

impl ContextMessageStoreValue {
    /// All messages sorted by (target, priority, key), for deterministic
    /// ordering: each stored message once, in that order.
    pub fn sorted_messages(&self) -> (r: Vec<&ScheduledContextMessage>)
        ensures
            exists|ks: Seq<Seq<char>>|
                #![trigger ks.len()]
                ks.len() == r@.len() && ks.no_duplicates() && ks.to_set()
                    == self.messages@.dom() && forall|i: int|
                    0 <= i < r@.len() ==> *r@[i] == self.messages@[#[trigger] ks[i]],
            forall|i: int, j: int| 0 <= i < j < r@.len() ==> !msg_before(*r@[j], *r@[i]),
    {
        let entries = self.messages.entries();
        let n = entries.len();
        let mut out: Vec<&ScheduledContextMessage> = Vec::new();
        let ghost mut ks: Seq<Seq<char>> = Seq::empty();
        let mut i: usize = 0;
        while i < n
            invariant
                n == entries@.len(),
                i <= n,
                out@.len() == i,
                ks.len() == i,
                forall|x: int|
                    0 <= x < entries@.len() ==> self.messages@.contains_key(
                        #[trigger] entries@[x].0@,
                    ) && self.messages@[entries@[x].0@] == entries@[x].1,
                forall|k: Seq<char>|
                    self.messages@.contains_key(k) ==> exists|x: int|
                        0 <= x < entries@.len() && #[trigger] entries@[x].0@ == k,
                forall|x: int, y: int|
                    0 <= x < entries@.len() && 0 <= y < entries@.len() && x != y ==> entries@[x].0@
                        != entries@[y].0@,
                ks.no_duplicates(),
                forall|a: int|
                    #![trigger ks[a]]
                    0 <= a < ks.len() ==> exists|x: int| 0 <= x < i && #[trigger] entries@[x].0@ == ks[a],
                forall|x: int| 0 <= x < i ==> ks.contains(#[trigger] entries@[x].0@),
                forall|a: int| 0 <= a < out@.len() ==> *out@[a] == self.messages@[#[trigger] ks[a]],
                forall|a: int, b: int| 0 <= a < b < out@.len() ==> !msg_before(*out@[b], *out@[a]),
            decreases n - i,
        {
            let e = &entries[i].1;
            let ghost k = entries@[i as int].0@;
            let mut p: usize = 0;
            while p < out.len() && msg_before_exec(out[p], e)
                invariant
                    p <= out@.len(),
                    forall|a: int| 0 <= a < p ==> msg_before(*out@[a], *e),
                decreases out@.len() - p,
            {
                p = p + 1;
            }
            let ghost before = out@;
            let ghost ks0 = ks;
            proof {
                assert forall|a: int| p <= a < before.len() implies !msg_before(*before[a], *e) by {
                    if a > p {
                        lemma_before_order(*before[a], *before[p as int], *e);
                        lemma_before_order(*before[p as int], *before[a], *e);
                        lemma_before_order(*before[p as int], *e, *e);
                    }
                }
                assert(!ks0.contains(k)) by {
                    if ks0.contains(k) {
                        let a = choose|a: int| 0 <= a < ks0.len() && ks0[a] == k;
                        let x = choose|x: int| 0 <= x < i && #[trigger] entries@[x].0@ == ks0[a];
                        assert(x != i);
                    }
                }
                ks = ks0.insert(p as int, k);
            }
            out.insert(p, e);
            proof {
                assert forall|a: int, b: int| 0 <= a < b < out@.len() implies !msg_before(
                    *out@[b],
                    *out@[a],
                ) by {
                    if a < p && b == p {
                        lemma_before_order(*out@[a], *e, *e);
                    } else if a < p && b > p {
                        assert(out@[b] == before[b - 1]);
                        lemma_before_order(*before[a], *e, *before[b - 1]);
                        lemma_before_order(*before[b - 1], *before[a], *e);
                    } else if a == p {
                        assert(out@[b] == before[b - 1]);
                    } else if a < p {
                    } else {
                        assert(out@[a] == before[a - 1]);
                        assert(out@[b] == before[b - 1]);
                    }
                }
                assert forall|a: int| #![trigger ks[a]] 0 <= a < ks.len() implies exists|x: int|
                    0 <= x < i + 1 && #[trigger] entries@[x].0@ == ks[a] by {
                    if a == p {
                        assert(entries@[i as int].0@ == ks[a]);
                    } else if a < p {
                        assert(ks[a] == ks0[a]);
                    } else {
                        assert(ks[a] == ks0[a - 1]);
                    }
                }
                assert forall|x: int| 0 <= x < i + 1 implies ks.contains(#[trigger] entries@[x].0@) by {
                    if x == i {
                        assert(ks[p as int] == k);
                    } else {
                        let a = choose|a: int| 0 <= a < ks0.len() && ks0[a] == entries@[x].0@;
                        if a < p {
                            assert(ks[a] == ks0[a]);
                        } else {
                            assert(ks[a + 1] == ks0[a]);
                        }
                    }
                }
                assert forall|a: int| 0 <= a < out@.len() implies *out@[a] == self.messages@[#[trigger] ks[a]] by {
                    if a == p {
                    } else if a < p {
                        assert(ks[a] == ks0[a]);
                    } else {
                        assert(ks[a] == ks0[a - 1]);
                        assert(out@[a] == before[a - 1]);
                    }
                }
                assert(ks.no_duplicates()) by {
                    assert forall|a: int, b: int| 0 <= a < ks.len() && 0 <= b < ks.len() && a != b implies ks[a] != ks[b] by {
                        if a != p && b != p {
                            let a0 = if a < p { a } else { a - 1 };
                            let b0 = if b < p { b } else { b - 1 };
                            assert(ks[a] == ks0[a0]);
                            assert(ks[b] == ks0[b0]);
                        } else if a == p {
                            let b0 = if b < p { b } else { b - 1 };
                            assert(ks[b] == ks0[b0]);
                        } else {
                            let a0 = if a < p { a } else { a - 1 };
                            assert(ks[a] == ks0[a0]);
                        }
                    }
                }
            }
            i = i + 1;
        }
        proof {
            assert(ks.to_set() =~= self.messages@.dom()) by {
                assert forall|k: Seq<char>| ks.to_set().contains(k) implies self.messages@.dom().contains(k) by {
                    let a = choose|a: int| 0 <= a < ks.len() && ks[a] == k;
                    let x = choose|x: int| 0 <= x < i && #[trigger] entries@[x].0@ == ks[a];
                }
                assert forall|k: Seq<char>| self.messages@.dom().contains(k) implies ks.to_set().contains(k) by {
                    let x = choose|x: int| 0 <= x < entries@.len() && #[trigger] entries@[x].0@ == k;
                }
            }
            assert(ks.len() == out@.len());
        }
        out
    }
}

} // verus!
