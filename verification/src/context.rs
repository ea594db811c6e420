//! Context management: compaction state, artifact compaction, truncation
//! split points, compaction boundaries and load-time trimming.

use vstd::prelude::*;
use vstd::string::{StrSliceExecFns, StringExecFns, StringSliceAdditionalSpecFns};

use crate::message::{Message, Role, ToolCallRef, Visibility};
use crate::plugin::PluginDescriptor;
use crate::strmap::StrSet;
use crate::text::{
    str_len_spec,
    chars_of, contains_spec, decimal, find_chars, first_from, lemma_first_from_occurs, join_spec, join_strings, push_decimal,
    str_contains, str_trim, trim_spec,
};

verus! {

/// Plugin ID for context compaction.
pub const CONTEXT_COMPACTION_PLUGIN_ID: &'static str = "context_compaction";

/// Plugin ID for context truncation transform.
pub const CONTEXT_TRANSFORM_PLUGIN_ID: &'static str = "context_transform";

/// Plugin config key for the compaction configuration.
pub struct CompactionConfigKey;

impl CompactionConfigKey {
    pub const KEY: &'static str = "compaction";
}

/// A recorded compaction boundary: snapshot of a single compaction event.
#[derive(Debug, Clone, PartialEq, Eq)]
pub struct CompactionBoundary {
    /// Summary text produced by the compaction pass.
    pub summary: String,
    /// Estimated tokens before compaction (in the compacted range).
    pub pre_tokens: usize,
    /// Estimated tokens after compaction (summary message tokens).
    pub post_tokens: usize,
    /// Timestamp of the compaction event (millis since UNIX epoch).
    pub timestamp_ms: u64,
}

/// Durable state for context compaction tracking.
#[derive(Debug, Clone, PartialEq, Eq)]
pub struct CompactionState {
    /// Ordered list of compaction boundaries (most recent last).
    pub boundaries: Vec<CompactionBoundary>,
    /// Total number of compaction passes performed.
    pub total_compactions: u64,
}

impl Default for CompactionState {
    fn default() -> (s: Self)
        ensures
            s.boundaries@ == Seq::<CompactionBoundary>::empty(),
            s.total_compactions == 0,
    {
        CompactionState { boundaries: Vec::new(), total_compactions: 0 }
    }
}

/// Reducer actions for [`CompactionState`].
#[derive(Debug, Clone)]
pub enum CompactionAction {
    /// Record a new compaction boundary.
    RecordBoundary(CompactionBoundary),
    /// Clear all tracked boundaries (e.g. on thread reset).
    Clear,
}

impl CompactionState {
    /// `RecordBoundary` appends the boundary and counts one more pass;
    /// `Clear` forgets every boundary and resets the count.
    pub fn reduce(&mut self, action: CompactionAction)
        requires
            action is RecordBoundary ==> old(self).total_compactions < u64::MAX,
        ensures
            match action {
                CompactionAction::RecordBoundary(b) => final(self).boundaries@ == old(
                    self,
                ).boundaries@.push(b) && final(self).total_compactions == old(
                    self,
                ).total_compactions + 1,
                CompactionAction::Clear => final(self).boundaries@ == Seq::<
                    CompactionBoundary,
                >::empty() && final(self).total_compactions == 0,
            },
    {
        match action {
            CompactionAction::RecordBoundary(boundary) => {
                self.boundaries.push(boundary);
                self.total_compactions = self.total_compactions + 1;
            },
            CompactionAction::Clear => {
                self.boundaries.clear();
                self.total_compactions = 0;
            },
        }
    }

    /// Latest compaction boundary, if any.
    pub fn latest_boundary(&self) -> (r: Option<&CompactionBoundary>)
        ensures
            match r {
                Some(b) => self.boundaries@.len() > 0 && *b == self.boundaries@.last(),
                None => self.boundaries@.len() == 0,
            },
    {
        if self.boundaries.len() == 0 {
            None
        } else {
            Some(&self.boundaries[self.boundaries.len() - 1])
        }
    }
}

/// Recording a boundary makes it the latest, and the pass count keeps
/// matching the number of boundaries; clearing twice is clearing once.
pub proof fn lemma_record_then_latest(s: Seq<CompactionBoundary>, total: u64, b: CompactionBoundary)
    requires
        total == s.len(),
    ensures
        s.push(b).last() == b,
        s.push(b).len() == total + 1,
{
}

/// State key for context compaction state.
pub struct CompactionStateKey;

impl CompactionStateKey {
    pub const KEY: &'static str = "__context_compaction";

    pub fn apply(value: &mut CompactionState, update: CompactionAction)
        requires
            update is RecordBoundary ==> old(value).total_compactions < u64::MAX,
        ensures
            match update {
                CompactionAction::RecordBoundary(b) => final(value).boundaries@ == old(
                    value,
                ).boundaries@.push(b) && final(value).total_compactions == old(
                    value,
                ).total_compactions + 1,
                CompactionAction::Clear => final(value).boundaries@ == Seq::<
                    CompactionBoundary,
                >::empty() && final(value).total_compactions == 0,
            },
    {
        value.reduce(update);
    }
}

/// Record a compaction boundary in the state store.
pub fn record_compaction_boundary(boundary: CompactionBoundary) -> (a: CompactionAction)
    ensures
        a == CompactionAction::RecordBoundary(boundary),
{
    CompactionAction::RecordBoundary(boundary)
}

// ---------------------------------------------------------------------------
// Artifact compaction
// ---------------------------------------------------------------------------

/// Token threshold above which a tool result is compacted to a preview.
pub const ARTIFACT_COMPACT_THRESHOLD_TOKENS: usize = 2048;

/// Maximum characters retained in a compacted artifact preview.
pub const ARTIFACT_PREVIEW_MAX_CHARS: usize = 1600;

/// Maximum lines retained in a compacted artifact preview.
pub const ARTIFACT_PREVIEW_MAX_LINES: usize = 24;

/// The number of characters a preview keeps, scanning from position `i`
/// with `lines` newlines seen: the scan stops at the end of the text, after
/// the maximum number of characters, or once the maximum number of
/// newlines has been kept.
pub open spec fn preview_chars(s: Seq<char>, i: nat, lines: nat) -> nat
    decreases s.len() - i,
{
    if i >= s.len() || i >= ARTIFACT_PREVIEW_MAX_CHARS || lines >= ARTIFACT_PREVIEW_MAX_LINES {
        i
    } else {
        preview_chars(
            s,
            i + 1,
            if s[i as int] == '\n' {
                lines + 1
            } else {
                lines
            },
        )
    }
}

/// The compacted form of an artifact whose UTF-8 length is `bytes`: the
/// text itself below the threshold, else its preview and a marker.
pub open spec fn compact_artifact_spec(s: Seq<char>, bytes: nat) -> Seq<char> {
    if bytes / 4 < ARTIFACT_COMPACT_THRESHOLD_TOKENS {
        s
    } else {
        s.subrange(0, preview_chars(s, 0, 0) as int) + "\n\n[Content compacted: original ~"@
            + decimal(bytes / 4) + " tokens, showing first "@ + decimal(preview_chars(s, 0, 0))
            + " chars]"@
    }
}

proof fn lemma_preview_bound(s: Seq<char>, i: nat, lines: nat)
    requires
        i <= s.len(),
        i <= ARTIFACT_PREVIEW_MAX_CHARS,
    ensures
        i <= preview_chars(s, i, lines) <= s.len(),
        preview_chars(s, i, lines) <= ARTIFACT_PREVIEW_MAX_CHARS,
    decreases s.len() - i,
{
    if !(i >= s.len() || i >= ARTIFACT_PREVIEW_MAX_CHARS || lines >= ARTIFACT_PREVIEW_MAX_LINES) {
        lemma_preview_bound(
            s,
            i + 1,
            if s[i as int] == '\n' {
                lines + 1
            } else {
                lines
            },
        );
    }
}

/// Compact a single artifact string if it exceeds the token threshold.
///
/// Returns the original content unchanged when estimated tokens (UTF-8
/// bytes / 4) are within budget. Otherwise truncates to
/// [`ARTIFACT_PREVIEW_MAX_CHARS`] / [`ARTIFACT_PREVIEW_MAX_LINES`]
/// (whichever is shorter) and appends a compaction indicator.
pub fn compact_artifact(content: &str) -> (r: String)
    ensures
        r@ == compact_artifact_spec(content@, str_len_spec(content@)),
{
    let estimated_tokens = content.len() / 4;
    if estimated_tokens < ARTIFACT_COMPACT_THRESHOLD_TOKENS {
        return String::from_str(content);
    }
    let n = content.unicode_len();
    let mut char_count: usize = 0;
    let mut line_count: usize = 0;
    while char_count < n && char_count < ARTIFACT_PREVIEW_MAX_CHARS && line_count
        < ARTIFACT_PREVIEW_MAX_LINES
        invariant
            n == content@.len(),
            char_count <= n,
            char_count <= ARTIFACT_PREVIEW_MAX_CHARS,
            line_count <= char_count,
            preview_chars(content@, 0, 0) == preview_chars(
                content@,
                char_count as nat,
                line_count as nat,
            ),
        decreases n - char_count,
    {
        let ch = content.get_char(char_count);
        if ch == '\n' {
            line_count = line_count + 1;
        }
        char_count = char_count + 1;
    }
    let preview = content.substring_char(0, char_count);
    let mut out = String::from_str(preview);
    out.append("\n\n[Content compacted: original ~");
    push_decimal(&mut out, estimated_tokens as u64);
    out.append(" tokens, showing first ");
    push_decimal(&mut out, char_count as u64);
    out.append(" chars]");
    out
}

// ---------------------------------------------------------------------------
// Truncation split points
// ---------------------------------------------------------------------------

/// Back over tool results from `s`: the first position at or before `s`
/// that is 0 or not a tool result.
pub open spec fn back_over_tools(h: Seq<Message>, s: int) -> int
    decreases s,
{
    if 0 < s < h.len() && h[s].role == Role::Tool {
        back_over_tools(h, s - 1)
    } else {
        s
    }
}

/// Forward over tool results from `s`: the first position at or after `s`
/// that is the end or not a tool result.
pub open spec fn forward_over_tools(h: Seq<Message>, s: int) -> int
    decreases h.len() - s,
{
    if 0 <= s < h.len() && h[s].role == Role::Tool {
        forward_over_tools(h, s + 1)
    } else {
        s
    }
}

/// The split adjusted so no tool call is separated from its results: first
/// move back to include the assistant whose results would be kept; then,
/// if the last dropped message is an assistant with tool calls, move
/// forward to drop its results too.
pub open spec fn adjust_split_spec(h: Seq<Message>, split: int) -> int {
    if split == 0 || split >= h.len() {
        split
    } else {
        let b = back_over_tools(h, split);
        if b > 0 && h[b - 1].role == Role::Assistant && h[b - 1].tool_calls is Some {
            forward_over_tools(h, b)
        } else {
            b
        }
    }
}

proof fn lemma_back_bounds(h: Seq<Message>, s: int)
    requires
        0 <= s < h.len(),
    ensures
        0 <= back_over_tools(h, s) <= s,
        back_over_tools(h, s) == 0 || h[back_over_tools(h, s)].role != Role::Tool,
    decreases s,
{
    if 0 < s && h[s].role == Role::Tool {
        lemma_back_bounds(h, s - 1);
    }
}

proof fn lemma_forward_bounds(h: Seq<Message>, s: int)
    requires
        0 <= s <= h.len(),
    ensures
        s <= forward_over_tools(h, s) <= h.len(),
        forward_over_tools(h, s) == h.len() || h[forward_over_tools(h, s)].role != Role::Tool,
    decreases h.len() - s,
{
    if s < h.len() && h[s].role == Role::Tool {
        lemma_forward_bounds(h, s + 1);
    }
}

/// Adjust split to avoid orphaning tool call/result pairs.
pub fn adjust_split_for_tool_pairs(history: &[Message], split: usize) -> (r: usize)
    ensures
        r == adjust_split_spec(history@, split as int),
        split <= history@.len() ==> r <= history@.len(),
{
    let n = history.len();
    if split == 0 || split >= n {
        return split;
    }
    let mut s = split;
    while s > 0 && matches!(history[s].role, Role::Tool)
        invariant
            n == history@.len(),
            0 <= s < n,
            back_over_tools(history@, split as int) == back_over_tools(history@, s as int),
        decreases s,
    {
        s = s - 1;
    }
    proof {
        lemma_back_bounds(history@, split as int);
    }
    if s > 0 {
        let last_dropped = &history[s - 1];
        if matches!(last_dropped.role, Role::Assistant) && last_dropped.tool_calls.is_some() {
            let ghost b = s as int;
            while s < n && matches!(history[s].role, Role::Tool)
                invariant
                    n == history@.len(),
                    b <= s <= n,
                    forward_over_tools(history@, b) == forward_over_tools(history@, s as int),
                decreases n - s,
            {
                s = s + 1;
            }
        }
    }
    s
}

/// The sum of the token estimates of `h[from..to]`.
pub open spec fn tokens_between(h: Seq<Message>, from: int, to: int) -> int
    decreases to - from,
{
    if from >= to {
        0
    } else {
        h[from].estimated_tokens + tokens_between(h, from + 1, to)
    }
}

/// `c` is where the budget walk stops: walking back from the end, the last
/// `min_recent` messages are always kept and older ones while the kept
/// suffix fits `budget`. `c` is at most the start of the kept-regardless
/// part; the suffix from `c` fits (unless `c` is that start), and the
/// message before `c` would not fit.
pub open spec fn is_budget_start(h: Seq<Message>, budget: int, min_recent: int, c: int) -> bool {
    let must_keep_start = h.len() - (if min_recent < h.len() {
        min_recent
    } else {
        h.len() as int
    });
    &&& 0 <= c <= must_keep_start
    &&& (c < must_keep_start ==> tokens_between(h, c, h.len() as int) <= budget)
    &&& (c > 0 ==> tokens_between(h, c - 1, h.len() as int) > budget)
}

proof fn lemma_tokens_step(h: Seq<Message>, from: int, to: int)
    requires
        0 <= from < to <= h.len(),
    ensures
        tokens_between(h, from, to) == h[from].estimated_tokens + tokens_between(h, from + 1, to),
{
}

proof fn lemma_tokens_monotone(h: Seq<Message>, a: int, b: int, to: int)
    requires
        0 <= a <= b <= to <= h.len(),
    ensures
        tokens_between(h, a, to) >= tokens_between(h, b, to),
        tokens_between(h, b, to) >= 0,
    decreases b - a,
{
    if a < b {
        lemma_tokens_monotone(h, a + 1, b, to);
    } else {
        lemma_tokens_nonneg(h, b, to);
    }
}

proof fn lemma_tokens_nonneg(h: Seq<Message>, from: int, to: int)
    requires
        0 <= from <= to <= h.len(),
    ensures
        tokens_between(h, from, to) >= 0,
    decreases to - from,
{
    if from < to {
        lemma_tokens_nonneg(h, from + 1, to);
    }
}

/// The budget start is unique: two positions that both satisfy
/// [`is_budget_start`] are the same position.
pub proof fn lemma_budget_start_unique(h: Seq<Message>, budget: int, min_recent: int, c1: int, c2: int)
    requires
        0 <= min_recent,
        is_budget_start(h, budget, min_recent, c1),
        is_budget_start(h, budget, min_recent, c2),
    ensures
        c1 == c2,
{
    if c1 < c2 {
        lemma_tokens_monotone(h, c1, c2 - 1, h.len() as int);
    } else if c2 < c1 {
        lemma_tokens_monotone(h, c2, c1 - 1, h.len() as int);
    }
}

/// The position where the budget walk stops (see [`is_budget_start`]).
pub open spec fn budget_start(h: Seq<Message>, budget: int, min_recent: int) -> int {
    choose|c: int| is_budget_start(h, budget, min_recent, c)
}

/// Where history is split: nothing is dropped from an empty history;
/// otherwise the budget start, adjusted so no tool call is separated from
/// its results.
pub open spec fn split_point_spec(h: Seq<Message>, budget: int, min_recent: int) -> int {
    if h.len() == 0 {
        0
    } else {
        adjust_split_spec(h, budget_start(h, budget, min_recent))
    }
}

/// Find the split point in history that fits the token budget.
///
/// Always keeps at least `min_recent` messages from the end, and older ones
/// while the kept suffix fits `budget_tokens`; then adjusts the split so
/// no tool call/result pair is broken. Nothing is dropped from an empty
/// history.
pub fn find_split_point(history: &[Message], budget_tokens: usize, min_recent: usize) -> (r: usize)
    requires
        tokens_between(history@, 0, history@.len() as int) <= usize::MAX,
    ensures
        r == split_point_spec(history@, budget_tokens as int, min_recent as int),
        r <= history@.len(),
{
    let n = history.len();
    if n == 0 {
        return 0;
    }
    let must_keep = if min_recent < n {
        min_recent
    } else {
        n
    };
    let must_keep_start = n - must_keep;
    let mut used_tokens: usize = 0;
    let mut i = n;
    // The most recent messages are kept whatever they cost.
    while i > must_keep_start
        invariant
            n == history@.len(),
            must_keep_start <= i <= n,
            used_tokens == tokens_between(history@, i as int, n as int),
            tokens_between(history@, 0, n as int) <= usize::MAX,
        decreases i,
    {
        let idx = i - 1;
        proof {
            lemma_tokens_step(history@, idx as int, n as int);
            lemma_tokens_monotone(history@, 0, idx as int, n as int);
        }
        used_tokens = used_tokens + history[idx].estimated_tokens;
        i = idx;
    }
    // Older messages are kept while the kept suffix fits the budget.
    while i > 0
        invariant
            n == history@.len(),
            must_keep_start == n - must_keep,
            must_keep == (if min_recent < n {
                min_recent
            } else {
                n
            }),
            0 <= i <= must_keep_start,
            used_tokens == tokens_between(history@, i as int, n as int),
            i < must_keep_start ==> used_tokens <= budget_tokens,
            tokens_between(history@, 0, n as int) <= usize::MAX,
        ensures
            is_budget_start(history@, budget_tokens as int, min_recent as int, i as int),
        decreases i,
    {
        let idx = i - 1;
        proof {
            lemma_tokens_step(history@, idx as int, n as int);
            lemma_tokens_monotone(history@, 0, idx as int, n as int);
        }
        let new_total = used_tokens + history[idx].estimated_tokens;
        if new_total > budget_tokens {
            break;
        }
        used_tokens = new_total;
        i = idx;
    }
    proof {
        let c = budget_start(history@, budget_tokens as int, min_recent as int);
        assert(is_budget_start(history@, budget_tokens as int, min_recent as int, i as int));
        lemma_budget_start_unique(history@, budget_tokens as int, min_recent as int, c, i as int);
    }
    adjust_split_for_tool_pairs(history, i)
}

// ---------------------------------------------------------------------------
// Compaction boundaries
// ---------------------------------------------------------------------------

/// The ids of the first `j` tool calls of `c`.
pub open spec fn call_ids(c: Seq<ToolCallRef>, j: int) -> Set<Seq<char>>
    decreases j,
{
    if j <= 0 {
        Set::empty()
    } else {
        call_ids(c, j - 1).insert(c[j - 1].id@)
    }
}

/// The open tool calls after message `m`: its own calls are opened, and a
/// tool result closes the call it answers.
pub open spec fn after_message(open: Set<Seq<char>>, m: Message) -> Set<Seq<char>> {
    let opened = match m.tool_calls {
        Some(c) => open.union(call_ids(c@, c@.len() as int)),
        None => open,
    };
    if m.role == Role::Tool && m.tool_call_id is Some {
        opened.remove(m.tool_call_id->0@)
    } else {
        opened
    }
}

/// The open tool calls after the messages `h[start..k]`.
pub open spec fn open_calls_after(h: Seq<Message>, start: int, k: int) -> Set<Seq<char>>
    decreases k - start,
{
    if k <= start {
        Set::empty()
    } else {
        after_message(open_calls_after(h, start, k - 1), h[k - 1])
    }
}

/// Cutting after `h[idx]` is safe: every tool call opened since `start` has
/// its result, and the next message is not a tool result.
pub open spec fn safe_boundary(h: Seq<Message>, start: int, idx: int) -> bool {
    &&& open_calls_after(h, start, idx + 1) == Set::<Seq<char>>::empty()
    &&& !(idx + 1 < h.len() && h[idx + 1].role == Role::Tool)
}

/// The last safe boundary among the positions `start..k`.
pub open spec fn last_safe_boundary(h: Seq<Message>, start: int, k: int) -> Option<int>
    decreases k - start,
{
    if k <= start {
        None
    } else if safe_boundary(h, start, k - 1) {
        Some(k - 1)
    } else {
        last_safe_boundary(h, start, k - 1)
    }
}

/// Find a safe compaction boundary in the message history.
///
/// Returns the index of the last message in `start..end` that can be safely
/// compacted (all tool call/result pairs are complete before this point).
pub fn find_compaction_boundary(messages: &[Message], start: usize, end: usize) -> (r: Option<usize>)
    requires
        start <= end,
    ensures
        match r {
            Some(i) => last_safe_boundary(
                messages@,
                start as int,
                if end < messages@.len() {
                    end as int
                } else {
                    messages@.len() as int
                },
            ) == Some(i as int),
            None => last_safe_boundary(
                messages@,
                start as int,
                if end < messages@.len() {
                    end as int
                } else {
                    messages@.len() as int
                },
            ) is None,
        },
{
    let n = messages.len();
    let stop = if end < n {
        end
    } else {
        n
    };
    let mut open_calls = StrSet::new();
    let mut best: Option<usize> = None;
    let mut idx = start;
    while idx < stop
        invariant
            n == messages@.len(),
            stop <= n,
            stop <= start ==> idx == start,
            start <= stop ==> start <= idx <= stop,
            start <= idx ==> open_calls@ == open_calls_after(messages@, start as int, idx as int),
            start <= idx ==> match best {
                Some(b) => last_safe_boundary(messages@, start as int, idx as int) == Some(
                    b as int,
                ),
                None => last_safe_boundary(messages@, start as int, idx as int) is None,
            },
            open_calls@.finite(),
        decreases stop - idx,
    {
        let msg = &messages[idx];
        let ghost before = open_calls@;
        match &msg.tool_calls {
            Some(calls) => {
                let mut j: usize = 0;
                while j < calls.len()
                    invariant
                        j <= calls@.len(),
                        open_calls@ == before.union(call_ids(calls@, j as int)),
                    decreases calls@.len() - j,
                {
                    open_calls.insert(calls[j].id.clone());
                    proof {
                        assert(open_calls@ =~= before.union(call_ids(calls@, j + 1)));
                    }
                    j = j + 1;
                }
            },
            None => {
                assert(open_calls@ =~= before);
            },
        }
        if matches!(msg.role, Role::Tool) {
            match &msg.tool_call_id {
                Some(call_id) => {
                    open_calls.remove(call_id.as_str());
                },
                None => {},
            }
        }
        assert(open_calls@ =~= after_message(before, messages@[idx as int]));
        let next_is_tool = idx + 1 < n && matches!(messages[idx + 1].role, Role::Tool);
        if open_calls.is_empty() && !next_is_tool {
            proof {
                open_calls@.lemma_len0_is_empty();
            }
            best = Some(idx);
        } else {
            proof {
                if open_calls@ == Set::<Seq<char>>::empty() {
                    assert(open_calls@.len() == 0);
                }
            }
        }
        idx = idx + 1;
    }
    best
}

// ---------------------------------------------------------------------------
// Transcript rendering and summary extraction
// ---------------------------------------------------------------------------

/// The tag that opens a conversation summary.
pub const SUMMARY_OPEN_TAG: &'static str = "<conversation-summary>";

/// The tag that closes a conversation summary.
pub const SUMMARY_CLOSE_TAG: &'static str = "</conversation-summary>";

/// The label a transcript gives a role.
pub open spec fn role_label(r: Role) -> Seq<char> {
    match r {
        Role::System => "System"@,
        Role::User => "User"@,
        Role::Assistant => "Assistant"@,
        Role::Tool => "Tool"@,
    }
}

fn role_label_str(r: Role) -> (s: &'static str)
    ensures
        s@ == role_label(r),
{
    match r {
        Role::System => "System",
        Role::User => "User",
        Role::Assistant => "Assistant",
        Role::Tool => "Tool",
    }
}

/// The transcript lines of `h`: one `[Role]: text` line per message that is
/// not internal and has text.
pub open spec fn transcript_lines(h: Seq<Message>) -> Seq<Seq<char>>
    decreases h.len(),
{
    if h.len() == 0 {
        Seq::empty()
    } else {
        let rest = transcript_lines(h.drop_last());
        let m = h.last();
        if m.visibility != Visibility::Internal && m.text@.len() > 0 {
            rest.push("["@ + role_label(m.role) + "]: "@ + m.text@)
        } else {
            rest
        }
    }
}

/// Render messages as a text transcript for LLM summarization.
///
/// Filters out `Visibility::Internal` messages: system-injected context that
/// gets re-injected each turn should not be included in the summary.
pub fn render_transcript(messages: &[Message]) -> (r: String)
    ensures
        r@ == join_spec(transcript_lines(messages@), "\n\n"@),
{
    let mut lines: Vec<String> = Vec::new();
    let n = messages.len();
    let mut i: usize = 0;
    while i < n
        invariant
            n == messages@.len(),
            i <= n,
            lines@.map_values(|s: String| s@) == transcript_lines(messages@.subrange(0, i as int)),
        decreases n - i,
    {
        let m = &messages[i];
        proof {
            assert(messages@.subrange(0, i + 1).drop_last() =~= messages@.subrange(0, i as int));
        }
        if !matches!(m.visibility, Visibility::Internal) && m.text.as_str().unicode_len() > 0 {
            let mut line = String::from_str("[");
            line.append(role_label_str(m.role));
            line.append("]: ");
            line.append(m.text.as_str());
            let ghost prev = lines@;
            lines.push(line);
            proof {
                assert(lines@.map_values(|s: String| s@) =~= prev.map_values(|s: String| s@).push(
                    line@,
                ));
            }
        }
        i = i + 1;
    }
    proof {
        assert(messages@.subrange(0, n as int) =~= messages@);
    }
    join_strings(&lines, "\n\n")
}

/// The text between the first opening and the first closing summary tag,
/// when both occur.
pub open spec fn tagged_span(t: Seq<char>) -> Option<(int, int)> {
    match (first_from(t, SUMMARY_OPEN_TAG@, 0), first_from(t, SUMMARY_CLOSE_TAG@, 0)) {
        (Some(a), Some(b)) => Some((a + SUMMARY_OPEN_TAG@.len(), b)),
        _ => None,
    }
}

/// A message that may carry a previous summary: an internal system message.
pub open spec fn summary_carrier(m: Message) -> bool {
    m.role == Role::System && m.visibility == Visibility::Internal
}

/// Scanning `h` from `i`, a carrier whose closing tag comes before the end
/// of its opening tag is met before any summary is found.
pub open spec fn summary_scan_faults(h: Seq<Message>, i: int) -> bool
    decreases h.len() - i,
{
    if i < 0 || i >= h.len() {
        false
    } else {
        let m = h[i];
        match tagged_span(m.text@) {
            Some((from, to)) if summary_carrier(m) => if to < from {
                true
            } else if trim_spec(m.text@.subrange(from, to)).len() > 0 {
                false
            } else {
                summary_scan_faults(h, i + 1)
            },
            _ => summary_scan_faults(h, i + 1),
        }
    }
}

/// The first non-empty, trimmed summary found scanning `h` from `i`.
pub open spec fn previous_summary_from(h: Seq<Message>, i: int) -> Option<Seq<char>>
    decreases h.len() - i,
{
    if i < 0 || i >= h.len() {
        None
    } else {
        let m = h[i];
        match tagged_span(m.text@) {
            Some((from, to)) if summary_carrier(m) && trim_spec(
                m.text@.subrange(from, to),
            ).len() > 0 => Some(trim_spec(m.text@.subrange(from, to))),
            _ => previous_summary_from(h, i + 1),
        }
    }
}

/// Extract a previous compaction summary from the message list.
///
/// Looks for the first internal system message whose text holds a
/// `<conversation-summary>` ... `</conversation-summary>` span with
/// non-blank content, and returns that content trimmed.
pub fn extract_previous_summary(messages: &[Message]) -> (r: Option<String>)
    requires
        !summary_scan_faults(messages@, 0),
    ensures
        match r {
            Some(s) => previous_summary_from(messages@, 0) == Some(s@),
            None => previous_summary_from(messages@, 0) is None,
        },
{
    let open_tag = chars_of(SUMMARY_OPEN_TAG);
    let close_tag = chars_of(SUMMARY_CLOSE_TAG);
    let n = messages.len();
    let mut i: usize = 0;
    while i < n
        invariant
            n == messages@.len(),
            i <= n,
            open_tag@ == SUMMARY_OPEN_TAG@,
            close_tag@ == SUMMARY_CLOSE_TAG@,
            !summary_scan_faults(messages@, i as int),
            previous_summary_from(messages@, 0) == previous_summary_from(messages@, i as int),
        decreases n - i,
    {
        let msg = &messages[i];
        if matches!(msg.role, Role::System) && matches!(msg.visibility, Visibility::Internal) {
            let text = chars_of(msg.text.as_str());
            match (find_chars(&text, &open_tag), find_chars(&text, &close_tag)) {
                (Some(a), Some(b)) => {
                    proof {
                        lemma_first_from_occurs(text@, open_tag@, 0);
                        lemma_first_from_occurs(text@, close_tag@, 0);
                        assert(summary_carrier(messages@[i as int]));
                        assert(tagged_span(msg.text@) == Some(
                            ((a + open_tag@.len()) as int, b as int),
                        ));
                    }
                    let from = a + open_tag.len();
                    let inner = msg.text.as_str().substring_char(from, b);
                    let trimmed = str_trim(inner);
                    if !trimmed.is_empty() {
                        return Some(String::from_str(trimmed));
                    }
                },
                _ => {},
            }
        }
        i = i + 1;
    }
    None
}

// ---------------------------------------------------------------------------
// Load-time trim
// ---------------------------------------------------------------------------

/// A summary message: an internal system message whose text holds the
/// opening summary tag.
pub open spec fn is_summary_message(m: Message) -> bool {
    summary_carrier(m) && contains_spec(m.text@, SUMMARY_OPEN_TAG@)
}

/// The last summary message among `h[0..k]`.
pub open spec fn last_summary_before(h: Seq<Message>, k: int) -> Option<int>
    decreases k,
{
    if k <= 0 {
        None
    } else if is_summary_message(h[k - 1]) {
        Some(k - 1)
    } else {
        last_summary_before(h, k - 1)
    }
}

/// `h` with every message before its last summary message dropped.
pub open spec fn trimmed_history(h: Seq<Message>) -> Seq<Message> {
    match last_summary_before(h, h.len() as int) {
        Some(idx) => h.subrange(idx, h.len() as int),
        None => h,
    }
}

proof fn lemma_last_summary_bounds(h: Seq<Message>, k: int)
    requires
        0 <= k <= h.len(),
    ensures
        match last_summary_before(h, k) {
            Some(j) => 0 <= j < k && is_summary_message(h[j]),
            None => true,
        },
    decreases k,
{
    if k > 0 {
        lemma_last_summary_bounds(h, k - 1);
    }
}

proof fn lemma_last_summary_suffix(h: Seq<Message>, i: int, k: int)
    requires
        0 <= i <= k <= h.len(),
    ensures
        last_summary_before(h.subrange(i, h.len() as int), k - i) == (match last_summary_before(
            h,
            k,
        ) {
            Some(j) => if j >= i {
                Some(j - i)
            } else {
                None
            },
            None => None,
        }),
    decreases k,
{
    let g = h.subrange(i, h.len() as int);
    if k == i {
        lemma_last_summary_bounds(h, k);
    } else {
        assert(g[k - i - 1] == h[k - 1]);
        lemma_last_summary_suffix(h, i, k - 1);
    }
}

/// Trimming is idempotent: trimming an already trimmed history changes
/// nothing.
pub proof fn lemma_trim_idempotent(h: Seq<Message>)
    ensures
        trimmed_history(trimmed_history(h)) == trimmed_history(h),
{
    lemma_last_summary_bounds(h, h.len() as int);
    match last_summary_before(h, h.len() as int) {
        Some(idx) => {
            lemma_last_summary_suffix(h, idx, h.len() as int);
            let g = h.subrange(idx, h.len() as int);
            assert(g.subrange(0, g.len() as int) =~= g);
        },
        None => {},
    }
}

fn is_summary(m: &Message) -> (r: bool)
    ensures
        r == is_summary_message(*m),
{
    matches!(m.role, Role::System) && matches!(m.visibility, Visibility::Internal) && str_contains(
        m.text.as_str(),
        SUMMARY_OPEN_TAG,
    )
}

/// Trim loaded messages to the latest compaction boundary.
///
/// If the message list contains a `<conversation-summary>` internal system
/// message, all messages before the last such message are dropped; the
/// summary message becomes the first message. Without a summary, or when
/// already trimmed, nothing changes.
pub fn trim_to_compaction_boundary(messages: &mut Vec<Message>)
    ensures
        final(messages)@ == trimmed_history(old(messages)@),
{
    let n = messages.len();
    let mut k = n;
    let ghost orig = messages@;
    while k > 0 && !is_summary(&messages[k - 1])
        invariant
            messages@ == orig,
            n == messages@.len(),
            k <= n,
            last_summary_before(messages@, n as int) == last_summary_before(messages@, k as int),
        decreases k,
    {
        k = k - 1;
    }
    if k > 1 {
        let tail = messages.split_off(k - 1);
        *messages = tail;
    } else {
        assert(k == 1 ==> orig.subrange(0, n as int) =~= orig);
    }
}

// ---------------------------------------------------------------------------
// Summarization requests
// ---------------------------------------------------------------------------

/// Minimum token savings required to justify a compaction LLM call.
pub const MIN_COMPACTION_GAIN_TOKENS: usize = 1024;

/// The system prompt of a default summarization request.
pub const DEFAULT_SUMMARIZER_SYSTEM_PROMPT: &'static str = "You maintain a durable conversation summary for an agent runtime. Produce a concise but lossless working summary for future turns. Preserve user goals, constraints, preferences, decisions, completed work, important findings, identifiers, and unresolved follow-ups. Output plain text only; do not mention the summarization process.";

/// Default summarizer with a domain-agnostic prompt.
///
/// Uses cumulative summarization: if a previous summary exists, the prompt
/// asks the LLM to update it with the new conversation span rather than
/// re-summarize everything.
pub struct DefaultSummarizer {
    /// Maximum output tokens for the summary.
    pub max_tokens: u32,
}

impl Default for DefaultSummarizer {
    fn default() -> (s: Self)
        ensures
            s.max_tokens == 1024,
    {
        DefaultSummarizer { max_tokens: 1024 }
    }
}

/// The user prompt of a summarization request: an update of the previous
/// summary when it is not blank, else a fresh summary of the transcript.
pub open spec fn summary_user_prompt(transcript: Seq<char>, previous: Option<Seq<char>>) -> Seq<char> {
    match previous {
        Some(p) if trim_spec(p).len() > 0 => "Update the cumulative summary with the new conversation span.\n\n<existing-summary>\n"@
            + trim_spec(p) + "\n</existing-summary>\n\n<new-conversation>\n"@ + trim_spec(transcript)
            + "\n</new-conversation>"@,
        _ => "Summarize the following conversation:\n\n<conversation>\n"@ + trim_spec(transcript)
            + "\n</conversation>"@,
    }
}

impl DefaultSummarizer {
    /// The user prompt sent to the summarizing model for `transcript`, given
    /// the previous summary, if any.
    pub fn user_prompt(&self, transcript: &str, previous_summary: Option<&str>) -> (r: String)
        ensures
            r@ == summary_user_prompt(
                transcript@,
                match previous_summary {
                    Some(p) => Some(p@),
                    None => None,
                },
            ),
    {
        match previous_summary {
            Some(prev) => {
                let prev_trimmed = str_trim(prev);
                if !prev_trimmed.is_empty() {
                    let mut out = String::from_str(
                        "Update the cumulative summary with the new conversation span.\n\n<existing-summary>\n",
                    );
                    out.append(prev_trimmed);
                    out.append("\n</existing-summary>\n\n<new-conversation>\n");
                    out.append(str_trim(transcript));
                    out.append("\n</new-conversation>");
                    return out;
                }
            },
            None => {},
        }
        let mut out = String::from_str("Summarize the following conversation:\n\n<conversation>\n");
        out.append(str_trim(transcript));
        out.append("\n</conversation>");
        out
    }

    /// What the model's reply becomes: an empty reply is an error.
    pub fn summary_from_reply(text: String) -> (r: Result<String, String>)
        ensures
            text@.len() > 0 ==> r == Ok::<String, String>(text),
            text@.len() == 0 ==> (r matches Err(e) && e@ == "empty summary"@),
    {
        if text.as_str().is_empty() {
            Err(String::from_str("empty summary"))
        } else {
            Ok(text)
        }
    }
}

// ---------------------------------------------------------------------------
// Request transform: compaction and truncation
// ---------------------------------------------------------------------------

/// The text of a message after tool-result compaction: tool results are
/// compacted, other messages keep their text.
pub open spec fn compacted_message_text(m: Message) -> Seq<char> {
    if m.role == Role::Tool {
        compact_artifact_spec(m.text@, str_len_spec(m.text@))
    } else {
        m.text@
    }
}

/// `b` is `a` with its text replaced by `text`.
pub open spec fn same_but_text(a: Message, b: Message, text: Seq<char>) -> bool {
    &&& b.role == a.role
    &&& b.visibility == a.visibility
    &&& b.text@ == text
    &&& b.tool_calls == a.tool_calls
    &&& b.tool_call_id == a.tool_call_id
    &&& b.estimated_tokens == a.estimated_tokens
}

/// Compact tool result messages that exceed the artifact token threshold:
/// every tool result's text is replaced by its compacted form (which is the
/// text itself below the threshold).
pub fn compact_tool_results(messages: &mut Vec<Message>)
    ensures
        final(messages)@.len() == old(messages)@.len(),
        forall|i: int|
            0 <= i < old(messages)@.len() ==> same_but_text(
                old(messages)@[i],
                #[trigger] final(messages)@[i],
                compacted_message_text(old(messages)@[i]),
            ),
{
    let ghost orig = messages@;
    let n = messages.len();
    let mut i: usize = 0;
    while i < n
        invariant
            n == orig.len(),
            messages@.len() == n,
            i <= n,
            forall|j: int|
                0 <= j < i ==> same_but_text(orig[j], #[trigger] messages@[j], compacted_message_text(orig[j])),
            forall|j: int| i <= j < n ==> #[trigger] messages@[j] == orig[j],
        decreases n - i,
    {
        if matches!(messages[i].role, Role::Tool) {
            let mut m = messages.remove(i);
            let compacted = compact_artifact(m.text.as_str());
            m.text = compacted;
            messages.insert(i, m);
        }
        i = i + 1;
    }
}

/// The token budget of a context window.
#[derive(Debug, Clone, Copy)]
pub struct ContextWindowPolicy {
    /// Tokens the model accepts in all.
    pub max_context_tokens: usize,
    /// Tokens reserved for the model's output.
    pub max_output_tokens: usize,
    /// Messages always kept from the end of the history.
    pub min_recent_messages: usize,
}

/// `a - b`, or 0 when `b > a`.
pub open spec fn sat_sub(a: int, b: int) -> int {
    if a >= b {
        a - b
    } else {
        0
    }
}

/// The number of leading system messages.
pub open spec fn system_prefix(h: Seq<Message>) -> int
    decreases h.len(),
{
    if h.len() == 0 || h[0].role != Role::System {
        0
    } else {
        1 + system_prefix(h.drop_first())
    }
}

/// The messages kept when the prompt is over budget: when everything fits
/// the available budget (window minus reserved output minus tool
/// definitions) nothing is dropped; otherwise the leading system messages
/// are kept and the history after them is split where
/// [`split_point_spec`] says, with the history budget being what the system
/// messages leave.
pub open spec fn truncated(h: Seq<Message>, p: ContextWindowPolicy, tool_tokens: int) -> Seq<Message> {
    let available = sat_sub(sat_sub(p.max_context_tokens as int, p.max_output_tokens as int), tool_tokens);
    if tokens_between(h, 0, h.len() as int) <= available {
        h
    } else {
        let se = system_prefix(h);
        let budget = sat_sub(available, tokens_between(h, 0, se));
        let hist = h.subrange(se, h.len() as int);
        let split = split_point_spec(hist, budget, p.min_recent_messages as int);
        h.subrange(0, se) + hist.subrange(split, hist.len() as int)
    }
}

proof fn lemma_system_prefix_bound(h: Seq<Message>)
    ensures
        0 <= system_prefix(h) <= h.len(),
    decreases h.len(),
{
    if h.len() > 0 && h[0].role == Role::System {
        lemma_system_prefix_bound(h.drop_first());
    }
}

proof fn lemma_tokens_split(h: Seq<Message>, a: int, b: int, c: int)
    requires
        0 <= a <= b <= c <= h.len(),
    ensures
        tokens_between(h, a, c) == tokens_between(h, a, b) + tokens_between(h, b, c),
    decreases b - a,
{
    if a < b {
        lemma_tokens_split(h, a + 1, b, c);
    }
}

proof fn lemma_tokens_shift(h: Seq<Message>, s: int, a: int, b: int)
    requires
        0 <= s <= h.len(),
        0 <= a <= b <= h.len() - s,
    ensures
        tokens_between(h.subrange(s, h.len() as int), a, b) == tokens_between(h, s + a, s + b),
    decreases b - a,
{
    if a < b {
        lemma_tokens_shift(h, s, a + 1, b);
    }
}

fn sum_tokens(h: &Vec<Message>, from: usize, to: usize) -> (r: usize)
    requires
        from <= to <= h@.len(),
        tokens_between(h@, 0, h@.len() as int) <= usize::MAX,
    ensures
        r == tokens_between(h@, from as int, to as int),
{
    proof {
        lemma_tokens_split(h@, 0, from as int, h@.len() as int);
        lemma_tokens_split(h@, from as int, to as int, h@.len() as int);
        lemma_tokens_nonneg(h@, to as int, h@.len() as int);
        lemma_tokens_nonneg(h@, 0, from as int);
    }
    let mut total: usize = 0;
    let mut i = from;
    while i < to
        invariant
            from <= i <= to <= h@.len(),
            total == tokens_between(h@, from as int, i as int),
            tokens_between(h@, from as int, to as int) <= usize::MAX,
        decreases to - i,
    {
        proof {
            lemma_tokens_split(h@, from as int, i as int, i + 1);
            lemma_tokens_split(h@, from as int, i + 1, to as int);
            lemma_tokens_nonneg(h@, i + 1, to as int);
            lemma_tokens_step(h@, i as int, i + 1);
            assert(tokens_between(h@, i + 1, i + 1) == 0);
        }
        total = total + h[i].estimated_tokens;
        i = i + 1;
    }
    total
}

/// Built-in request transform: truncate messages to fit the token budget.
///
/// Preserves all leading system messages and the most recent conversation
/// messages, and adjusts the split so no tool call/result pair is broken.
pub struct ContextTransform {
    pub policy: ContextWindowPolicy,
}

impl ContextTransform {
    pub fn new(policy: ContextWindowPolicy) -> (t: Self)
        ensures
            t.policy == policy,
    {
        ContextTransform { policy }
    }

    /// Drop the oldest history that does not fit the budget. `tool_tokens` is
    /// the token estimate of the tool definitions sent with the prompt.
    pub fn truncate(&self, messages: Vec<Message>, tool_tokens: usize) -> (r: Vec<Message>)
        requires
            tokens_between(messages@, 0, messages@.len() as int) <= usize::MAX,
        ensures
            r@ == truncated(messages@, self.policy, tool_tokens as int),
    {
        let n = messages.len();
        let available = self.policy.max_context_tokens.saturating_sub(
            self.policy.max_output_tokens,
        ).saturating_sub(tool_tokens);
        let total = sum_tokens(&messages, 0, n);
        if total <= available {
            return messages;
        }
        let ghost h = messages@;
        let mut system_end: usize = 0;
        assert(h.subrange(0, n as int) =~= h);
        while system_end < n && matches!(messages[system_end].role, Role::System)
            invariant
                n == h.len(),
                messages@ == h,
                system_end <= n,
                system_prefix(h) == system_end + system_prefix(h.subrange(system_end as int, n as int)),
            decreases n - system_end,
        {
            proof {
                assert(h.subrange(system_end as int, n as int).drop_first() =~= h.subrange(
                    system_end + 1,
                    n as int,
                ));
            }
            system_end = system_end + 1;
        }
        proof {
            if system_end < n {
                assert(h.subrange(system_end as int, n as int)[0] == h[system_end as int]);
            }
            assert(system_prefix(h) == system_end);
        }
        let system_tokens = sum_tokens(&messages, 0, system_end);
        let history_budget = available.saturating_sub(system_tokens);
        let history = vstd::slice::slice_subrange(messages.as_slice(), system_end, n);
        proof {
            lemma_tokens_shift(h, system_end as int, 0, (n - system_end) as int);
            lemma_tokens_split(h, 0, system_end as int, n as int);
            lemma_tokens_nonneg(h, 0, system_end as int);
        }
        let split = find_split_point(history, history_budget, self.policy.min_recent_messages);
        let mut messages = messages;
        let mut tail = messages.split_off(system_end);
        let kept = tail.split_off(split);
        messages.append(&mut { kept });
        proof {
            assert(messages@ =~= truncated(h, self.policy, tool_tokens as int));
        }
        messages
    }
}

/// Where the always-kept recent part of a history of `len` messages starts.
pub open spec fn recent_start(len: int, min_recent: int) -> int {
    len - (if min_recent < len {
        min_recent
    } else {
        len
    })
}

proof fn lemma_budget_walk(h: Seq<Message>, budget: int, min_recent: int, c: int)
    requires
        0 <= min_recent,
        0 <= c <= recent_start(h.len() as int, min_recent),
        c < recent_start(h.len() as int, min_recent) ==> tokens_between(h, c, h.len() as int)
            <= budget,
    ensures
        exists|w: int| is_budget_start(h, budget, min_recent, w),
    decreases c,
{
    if c > 0 && tokens_between(h, c - 1, h.len() as int) <= budget {
        lemma_budget_walk(h, budget, min_recent, c - 1);
    } else {
        assert(is_budget_start(h, budget, min_recent, c));
    }
}

/// How the truncation split of a history behaves, for any budget: it never
/// reaches into the last `min_recent` messages, which are always kept; and
/// when something is dropped and something kept, the first kept message is
/// not a tool result (its call is kept with it).
pub proof fn lemma_split_point_shape(h: Seq<Message>, budget: int, min_recent: int)
    requires
        0 <= min_recent,
    ensures
        0 <= split_point_spec(h, budget, min_recent) <= recent_start(h.len() as int, min_recent),
        0 < split_point_spec(h, budget, min_recent) < h.len() ==> h[split_point_spec(
            h,
            budget,
            min_recent,
        )].role != Role::Tool,
{
    if h.len() > 0 {
        let m = recent_start(h.len() as int, min_recent);
        lemma_budget_walk(h, budget, min_recent, m);
        let c = budget_start(h, budget, min_recent);
        assert(is_budget_start(h, budget, min_recent, c));
        if 0 < c < h.len() {
            lemma_back_bounds(h, c);
            let b = back_over_tools(h, c);
            if b > 0 && h[b - 1].role == Role::Assistant && h[b - 1].tool_calls is Some {
                // `h[b]` is not a tool result, so there is nothing to skip.
                assert(forward_over_tools(h, b) == b);
            }
        }
    }
}

/// What truncation keeps, for any messages, policy and tool budget: the
/// leading system messages, unchanged, followed by a suffix of the history
/// after them that holds at least its last `min_recent_messages` messages;
/// when older history was dropped, the kept suffix does not begin with a
/// tool result.
pub proof fn lemma_truncation_shape(h: Seq<Message>, p: ContextWindowPolicy, tool_tokens: int)
    ensures
        ({
            let r = truncated(h, p, tool_tokens);
            let se = system_prefix(h);
            exists|k: int|
                #![trigger h.subrange(k, h.len() as int)]
                se <= k <= se + recent_start(h.len() - se, p.min_recent_messages as int) && r
                    == h.subrange(0, se) + h.subrange(k, h.len() as int) && (se < k < h.len()
                    ==> h[k].role != Role::Tool)
        }),
{
    let r = truncated(h, p, tool_tokens);
    let se = system_prefix(h);
    lemma_system_prefix_bound(h);
    let available = sat_sub(sat_sub(p.max_context_tokens as int, p.max_output_tokens as int), tool_tokens);
    if tokens_between(h, 0, h.len() as int) <= available {
        // Nothing is dropped: the witness is the end of the system prefix.
        assert(h.subrange(0, se) + h.subrange(se, h.len() as int) =~= h);
        assert(r == h.subrange(0, se) + h.subrange(se, h.len() as int));
    } else {
        let budget = sat_sub(available, tokens_between(h, 0, se));
        let hist = h.subrange(se, h.len() as int);
        let split = split_point_spec(hist, budget, p.min_recent_messages as int);
        lemma_split_point_shape(hist, budget, p.min_recent_messages as int);
        let k = se + split;
        assert(hist.subrange(split, hist.len() as int) =~= h.subrange(k, h.len() as int));
        if se < k < h.len() {
            assert(hist[split] == h[k]);
        }
    }
}

proof fn lemma_tokens_same(a: Seq<Message>, fa: int, b: Seq<Message>, fb: int, n: int)
    requires
        0 <= n,
        0 <= fa,
        fa + n <= a.len(),
        0 <= fb,
        fb + n <= b.len(),
        forall|j: int| 0 <= j < n ==> #[trigger] a[fa + j] == b[fb + j],
    ensures
        tokens_between(a, fa, fa + n) == tokens_between(b, fb, fb + n),
    decreases n,
{
    if n > 0 {
        assert(a[fa + 0] == b[fb + 0]);
        assert forall|j: int| 0 <= j < n - 1 implies #[trigger] a[(fa + 1) + j] == b[(fb + 1) + j] by {
            assert(a[fa + (j + 1)] == b[fb + (j + 1)]);
        }
        lemma_tokens_same(a, fa + 1, b, fb + 1, n - 1);
    }
}

/// Truncation fits the window: when the history after the leading system
/// messages holds no tool results, and those system messages alone fit what
/// the window leaves (context tokens minus reserved output minus tool
/// definitions), then a result that keeps more history than the always-kept
/// last `min_recent_messages` has a total token estimate, system messages
/// included, within that budget.
pub proof fn lemma_truncation_fits(h: Seq<Message>, p: ContextWindowPolicy, tool_tokens: int)
    requires
        forall|i: int| system_prefix(h) <= i < h.len() ==> #[trigger] h[i].role != Role::Tool,
        tokens_between(h, 0, system_prefix(h)) <= sat_sub(
            sat_sub(p.max_context_tokens as int, p.max_output_tokens as int),
            tool_tokens,
        ),
        truncated(h, p, tool_tokens).len() > system_prefix(h) + (h.len() - system_prefix(h))
            - recent_start(h.len() - system_prefix(h), p.min_recent_messages as int),
    ensures
        tokens_between(truncated(h, p, tool_tokens), 0, truncated(h, p, tool_tokens).len() as int)
            <= sat_sub(sat_sub(p.max_context_tokens as int, p.max_output_tokens as int), tool_tokens),
{
    let r = truncated(h, p, tool_tokens);
    let available = sat_sub(sat_sub(p.max_context_tokens as int, p.max_output_tokens as int), tool_tokens);
    lemma_system_prefix_bound(h);
    let se = system_prefix(h);
    if tokens_between(h, 0, h.len() as int) > available {
        let sys = tokens_between(h, 0, se);
        let budget = sat_sub(available, sys);
        let hist = h.subrange(se, h.len() as int);
        let mr = p.min_recent_messages as int;
        lemma_split_point_shape(hist, budget, mr);
        let split = split_point_spec(hist, budget, mr);
        assert(hist.len() > 0);
        lemma_budget_walk(hist, budget, mr, recent_start(hist.len() as int, mr));
        let c = budget_start(hist, budget, mr);
        assert(is_budget_start(hist, budget, mr, c));
        // Without tool results the split is the budget start itself.
        if 0 < c < hist.len() {
            assert(hist[c] == h[se + c]);
            lemma_back_bounds(hist, c);
            assert(back_over_tools(hist, c) == c);
            assert(forward_over_tools(hist, c) == c);
        }
        assert(split == c);
        assert(r.len() == se + hist.len() - c);
        assert(c < recent_start(hist.len() as int, mr));
        assert(tokens_between(hist, c, hist.len() as int) <= budget);
        lemma_tokens_split(r, 0, se, r.len() as int);
        assert forall|j: int| 0 <= j < se implies #[trigger] r[0 + j] == h[0 + j] by {}
        lemma_tokens_same(r, 0, h, 0, se);
        assert forall|j: int| 0 <= j < hist.len() - c implies #[trigger] r[se + j] == hist[c + j] by {}
        lemma_tokens_same(r, se, hist, c, hist.len() - c);
    }
}

/// Truncation drops only what it must: a prompt that fits what the window
/// leaves is kept whole; and when the history after the leading system
/// messages holds no tool results and those system messages alone fit, a
/// truncated prompt drops history only as far as needed, since keeping also
/// the last dropped message would not fit.
pub proof fn lemma_truncation_minimal(h: Seq<Message>, p: ContextWindowPolicy, tool_tokens: int)
    ensures
        tokens_between(h, 0, h.len() as int) <= sat_sub(
            sat_sub(p.max_context_tokens as int, p.max_output_tokens as int),
            tool_tokens,
        ) ==> truncated(h, p, tool_tokens) == h,
        (forall|i: int| system_prefix(h) <= i < h.len() ==> #[trigger] h[i].role != Role::Tool)
            && tokens_between(h, 0, system_prefix(h)) <= sat_sub(
            sat_sub(p.max_context_tokens as int, p.max_output_tokens as int),
            tool_tokens,
        ) && truncated(h, p, tool_tokens).len() < h.len() ==> ({
            let r = truncated(h, p, tool_tokens);
            let last_dropped = h.len() - (r.len() - system_prefix(h)) - 1;
            &&& system_prefix(h) <= last_dropped < h.len()
            &&& tokens_between(r, 0, r.len() as int) + h[last_dropped].estimated_tokens > sat_sub(
                sat_sub(p.max_context_tokens as int, p.max_output_tokens as int),
                tool_tokens,
            )
        }),
{
    let r = truncated(h, p, tool_tokens);
    let available = sat_sub(sat_sub(p.max_context_tokens as int, p.max_output_tokens as int), tool_tokens);
    lemma_system_prefix_bound(h);
    let se = system_prefix(h);
    if tokens_between(h, 0, h.len() as int) > available && (forall|i: int|
        se <= i < h.len() ==> #[trigger] h[i].role != Role::Tool) && tokens_between(h, 0, se)
        <= available && r.len() < h.len() {
        let sys = tokens_between(h, 0, se);
        let budget = sat_sub(available, sys);
        let hist = h.subrange(se, h.len() as int);
        let mr = p.min_recent_messages as int;
        lemma_split_point_shape(hist, budget, mr);
        let split = split_point_spec(hist, budget, mr);
        lemma_budget_walk(hist, budget, mr, recent_start(hist.len() as int, mr));
        let c = budget_start(hist, budget, mr);
        assert(is_budget_start(hist, budget, mr, c));
        if 0 < c < hist.len() {
            assert(hist[c] == h[se + c]);
            lemma_back_bounds(hist, c);
            assert(back_over_tools(hist, c) == c);
            assert(forward_over_tools(hist, c) == c);
        }
        assert(split == c);
        assert(r.len() == se + hist.len() - c);
        assert(c > 0);
        lemma_tokens_step(hist, c - 1, hist.len() as int);
        assert(hist[c - 1] == h[se + c - 1]);
        lemma_tokens_split(r, 0, se, r.len() as int);
        assert forall|j: int| 0 <= j < se implies #[trigger] r[0 + j] == h[0 + j] by {}
        lemma_tokens_same(r, 0, h, 0, se);
        assert forall|j: int| 0 <= j < hist.len() - c implies #[trigger] r[se + j] == hist[c + j] by {}
        lemma_tokens_same(r, se, hist, c, hist.len() - c);
    }
}

/// Plugin that installs the truncation transform with its policy.
pub struct ContextTransformPlugin {
    pub policy: ContextWindowPolicy,
}

impl ContextTransformPlugin {
    pub fn new(policy: ContextWindowPolicy) -> (p: Self)
        ensures
            p.policy == policy,
    {
        ContextTransformPlugin { policy }
    }

    pub fn descriptor(&self) -> (d: PluginDescriptor)
        ensures
            d.name@ == CONTEXT_TRANSFORM_PLUGIN_ID@,
    {
        PluginDescriptor { name: CONTEXT_TRANSFORM_PLUGIN_ID }
    }

    /// The transform this plugin installs.
    pub fn transform(&self) -> (t: ContextTransform)
        ensures
            t.policy == self.policy,
    {
        ContextTransform::new(self.policy)
    }
}

} // verus!
