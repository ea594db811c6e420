//! Streaming inference: provider stream events accumulated into a final
//! result, and the per-poll decisions of the event stream handed to the
//! agent loop.

use vstd::prelude::*;
use vstd::string::{StrSliceExecFns, StringExecFns};

use vstd::utf8::{decode_utf8, encode_utf8, is_char_boundary};

use crate::json::{json_text, json_value_text, JsonValue, JsonView};
use crate::text::str_eq;

verus! {

// ---------------------------------------------------------------------------
// Provider-side data, as the collector reads it
// ---------------------------------------------------------------------------

/// Why the model stopped, as the runtime reports it.
#[derive(Debug, Clone, Copy, PartialEq, Eq)]
pub enum StopReason {
    EndTurn,
    MaxTokens,
    ToolUse,
    StopSequence,
}

/// Why the provider says the model stopped.
#[derive(Debug, Clone, Copy, PartialEq, Eq)]
pub enum ProviderStopReason {
    Completed,
    MaxTokens,
    ToolCall,
    StopSequence,
    ContentFilter,
    Other,
}

/// The runtime's stop reason for a provider stop reason; content filtering
/// and unknown reasons have none.
pub open spec fn map_stop_reason_spec(r: ProviderStopReason) -> Option<StopReason> {
    match r {
        ProviderStopReason::Completed => Some(StopReason::EndTurn),
        ProviderStopReason::MaxTokens => Some(StopReason::MaxTokens),
        ProviderStopReason::ToolCall => Some(StopReason::ToolUse),
        ProviderStopReason::StopSequence => Some(StopReason::StopSequence),
        ProviderStopReason::ContentFilter => None,
        ProviderStopReason::Other => None,
    }
}

/// Map a provider stop reason to the runtime's.
pub fn map_stop_reason(r: &ProviderStopReason) -> (s: Option<StopReason>)
    ensures
        s == map_stop_reason_spec(*r),
{
    match r {
        ProviderStopReason::Completed => Some(StopReason::EndTurn),
        ProviderStopReason::MaxTokens => Some(StopReason::MaxTokens),
        ProviderStopReason::ToolCall => Some(StopReason::ToolUse),
        ProviderStopReason::StopSequence => Some(StopReason::StopSequence),
        ProviderStopReason::ContentFilter => None,
        ProviderStopReason::Other => None,
    }
}

/// Token usage of an inference.
#[derive(Debug, Clone, Copy, PartialEq, Eq)]
pub struct TokenUsage {
    pub prompt_tokens: Option<i32>,
    pub completion_tokens: Option<i32>,
    pub total_tokens: Option<i32>,
    pub cache_read_tokens: Option<i32>,
    pub cache_creation_tokens: Option<i32>,
    pub thinking_tokens: Option<i32>,
}

/// Details of the prompt tokens, as the provider reports them.
#[derive(Debug, Clone, Copy, PartialEq, Eq)]
pub struct PromptTokenDetails {
    pub cached_tokens: Option<i32>,
    pub cache_creation_tokens: Option<i32>,
}

/// Details of the completion tokens, as the provider reports them.
#[derive(Debug, Clone, Copy, PartialEq, Eq)]
pub struct CompletionTokenDetails {
    pub reasoning_tokens: Option<i32>,
}

/// Token usage as the provider reports it.
#[derive(Debug, Clone, Copy, PartialEq, Eq)]
pub struct ProviderUsage {
    pub prompt_tokens: Option<i32>,
    pub completion_tokens: Option<i32>,
    pub total_tokens: Option<i32>,
    pub prompt_tokens_details: Option<PromptTokenDetails>,
    pub completion_tokens_details: Option<CompletionTokenDetails>,
}

/// The runtime's usage record for a provider usage report.
pub open spec fn map_usage_spec(u: ProviderUsage) -> TokenUsage {
    TokenUsage {
        prompt_tokens: u.prompt_tokens,
        completion_tokens: u.completion_tokens,
        total_tokens: u.total_tokens,
        cache_read_tokens: match u.prompt_tokens_details {
            Some(d) => d.cached_tokens,
            None => None,
        },
        cache_creation_tokens: match u.prompt_tokens_details {
            Some(d) => d.cache_creation_tokens,
            None => None,
        },
        thinking_tokens: match u.completion_tokens_details {
            Some(d) => d.reasoning_tokens,
            None => None,
        },
    }
}

/// Map a provider usage report to the runtime's usage record.
pub fn map_usage(u: &ProviderUsage) -> (t: TokenUsage)
    ensures
        t == map_usage_spec(*u),
{
    let (cache_read_tokens, cache_creation_tokens) = match u.prompt_tokens_details {
        Some(d) => (d.cached_tokens, d.cache_creation_tokens),
        None => (None, None),
    };
    let thinking_tokens = match u.completion_tokens_details {
        Some(d) => d.reasoning_tokens,
        None => None,
    };
    TokenUsage {
        prompt_tokens: u.prompt_tokens,
        completion_tokens: u.completion_tokens,
        total_tokens: u.total_tokens,
        cache_read_tokens,
        cache_creation_tokens,
        thinking_tokens,
    }
}

/// A tool-call chunk of the stream: the provider repeats the call's id and
/// sends its arguments accumulated so far.
pub struct ToolCallChunk {
    pub call_id: String,
    /// The function name; empty until the provider knows it.
    pub fn_name: String,
    /// The arguments accumulated so far: a string is the raw arguments
    /// text, any other value is taken by its JSON text.
    pub arguments: JsonValue,
}

/// A tool call the provider captured in full by the end of the stream.
pub struct CapturedToolCall {
    pub call_id: String,
    pub fn_name: String,
    /// The call's arguments, taken by their JSON text.
    pub arguments: JsonValue,
}

/// The end of a stream, with what the provider captured.
pub struct StreamEnd {
    pub captured_usage: Option<ProviderUsage>,
    pub captured_stop_reason: Option<ProviderStopReason>,
    /// The tool calls the provider captured, which supersede streamed chunks.
    pub captured_tool_calls: Option<Vec<CapturedToolCall>>,
    /// The first text the provider captured, which supersedes streamed text.
    pub captured_first_text: Option<String>,
}

/// An event of the provider's stream.
pub enum StreamEvent {
    Start,
    Chunk(String),
    ReasoningChunk(String),
    ThoughtSignatureChunk,
    ToolCallChunk(ToolCallChunk),
    End(StreamEnd),
}

// ---------------------------------------------------------------------------
// Outputs
// ---------------------------------------------------------------------------

/// Output from processing a single stream event.
pub enum StreamOutput {
    /// Text content delta.
    TextDelta(String),
    /// Reasoning content delta.
    ReasoningDelta(String),
    /// A new tool call was started.
    ToolCallStart { id: String, name: String },
    /// Tool call arguments delta (incremental JSON fragment).
    ToolCallDelta { id: String, args_delta: String },
    /// Nothing to emit for this event.
    Empty,
}

/// The characters a stream output carries.
pub enum OutputView {
    TextDelta(Seq<char>),
    ReasoningDelta(Seq<char>),
    ToolCallStart(Seq<char>, Seq<char>),
    ToolCallDelta(Seq<char>, Seq<char>),
    Nothing,
}

impl View for StreamOutput {
    type V = OutputView;

    open spec fn view(&self) -> OutputView {
        match self {
            StreamOutput::TextDelta(s) => OutputView::TextDelta(s@),
            StreamOutput::ReasoningDelta(s) => OutputView::ReasoningDelta(s@),
            StreamOutput::ToolCallStart { id, name } => OutputView::ToolCallStart(id@, name@),
            StreamOutput::ToolCallDelta { id, args_delta } => OutputView::ToolCallDelta(
                id@,
                args_delta@,
            ),
            StreamOutput::Empty => OutputView::Nothing,
        }
    }
}

// ---------------------------------------------------------------------------
// The collector
// ---------------------------------------------------------------------------

/// A tool call being assembled from chunks.
struct PartialToolCall {
    id: String,
    name: String,
    arguments: String,
    start_emitted: bool,
}

/// The state of a tool call being assembled.
pub struct PartialView {
    pub id: Seq<char>,
    pub name: Seq<char>,
    pub arguments: Seq<char>,
    pub start_emitted: bool,
}

impl PartialToolCall {
    spec fn view(&self) -> PartialView {
        PartialView {
            id: self.id@,
            name: self.name@,
            arguments: self.arguments@,
            start_emitted: self.start_emitted,
        }
    }
}

spec fn partials_view(s: Seq<PartialToolCall>) -> Seq<PartialView> {
    s.map_values(|p: PartialToolCall| p.view())
}

/// What the collector holds.
pub struct CollectorView {
    pub text: Seq<char>,
    pub calls: Seq<PartialView>,
    pub usage: Option<TokenUsage>,
    pub stop_reason: Option<StopReason>,
    pub pending: Seq<OutputView>,
    pub end_seen: bool,
}

/// Accumulates streaming events into a final [`StreamResult`].
pub struct StreamCollector {
    text: String,
    tool_calls: Vec<PartialToolCall>,
    usage: Option<TokenUsage>,
    stop_reason: Option<StopReason>,
    pending_outputs: Vec<StreamOutput>,
    end_seen: bool,
}

impl View for StreamCollector {
    type V = CollectorView;

    closed spec fn view(&self) -> CollectorView {
        CollectorView {
            text: self.text@,
            calls: partials_view(self.tool_calls@),
            usage: self.usage,
            stop_reason: self.stop_reason,
            pending: self.pending_outputs@.map_values(|o: StreamOutput| o@),
            end_seen: self.end_seen,
        }
    }
}

/// The first position of the call with id `id`.
pub open spec fn find_call(calls: Seq<PartialView>, id: Seq<char>) -> Option<int>
    decreases calls.len(),
{
    if calls.len() == 0 {
        None
    } else {
        match find_call(calls.drop_last(), id) {
            Some(i) => Some(i),
            None => if calls.last().id == id {
                Some(calls.len() - 1)
            } else {
                None
            },
        }
    }
}

/// Whether tool arguments carry anything: not null, and not an empty string,
/// array or object.
pub open spec fn args_have_content(v: JsonView) -> bool {
    match v {
        JsonView::Null => false,
        JsonView::Str(s) => s.len() > 0,
        JsonView::Array(items) => items.len() > 0,
        JsonView::Object(fields) => fields.len() > 0,
        _ => true,
    }
}

/// The argument text of a chunk: the string itself when the provider sent a
/// string, else the JSON text.
pub open spec fn chunk_args(ch: ToolCallChunk) -> Seq<char> {
    match ch.arguments {
        JsonValue::String(s) => s@,
        _ => json_value_text(ch.arguments.view()),
    }
}

/// The length in bytes of the UTF-8 encoding of `s`.
pub open spec fn byte_len(s: Seq<char>) -> nat {
    encode_utf8(s).len()
}

/// The text that follows the first `n` bytes of the UTF-8 encoding of `s`.
pub open spec fn bytes_after(s: Seq<char>, n: nat) -> Seq<char> {
    decode_utf8(encode_utf8(s).subrange(n as int, encode_utf8(s).len() as int))
}

/// The byte length of the arguments already held for the chunk's call.
pub open spec fn held_byte_len(c: CollectorView, ch: ToolCallChunk) -> nat {
    match find_call(c.calls, ch.call_id@) {
        Some(i) => byte_len(c.calls[i].arguments),
        None => 0,
    }
}

/// Whether the collector can take the event: a chunk whose arguments are
/// longer than those already held must continue them at a character
/// boundary, since the delta is cut at the held byte length.
pub open spec fn event_ok(c: CollectorView, ev: StreamEvent) -> bool {
    match ev {
        StreamEvent::ToolCallChunk(ch) => byte_len(chunk_args(ch)) > held_byte_len(c, ch)
            ==> is_char_boundary(encode_utf8(chunk_args(ch)), held_byte_len(c, ch) as int),
        _ => true,
    }
}

/// The collector and output after a tool-call chunk.
pub open spec fn chunk_step(c: CollectorView, ch: ToolCallChunk) -> (CollectorView, OutputView) {
    let id = ch.call_id@;
    let found = find_call(c.calls, id);
    let calls1 = match found {
        Some(_) => c.calls,
        None => c.calls.push(
            PartialView { id, name: Seq::empty(), arguments: Seq::empty(), start_emitted: false },
        ),
    };
    let i = match found {
        Some(i) => i,
        None => c.calls.len() as int,
    };
    let prev_len = match found {
        Some(i) => byte_len(c.calls[i].arguments),
        None => 0,
    };
    let e0 = calls1[i];
    let name = if ch.fn_name@.len() > 0 {
        ch.fn_name@
    } else {
        e0.name
    };
    let args = chunk_args(ch);
    let delta = if byte_len(args) > prev_len {
        bytes_after(args, prev_len)
    } else {
        Seq::empty()
    };
    let start = !e0.start_emitted && name.len() > 0;
    let e1 = PartialView {
        id: e0.id,
        name,
        arguments: args,
        start_emitted: e0.start_emitted || start,
    };
    let pending = if start && args_have_content(ch.arguments@) {
        c.pending.push(OutputView::ToolCallDelta(id, args))
    } else {
        c.pending
    };
    let out = if start {
        OutputView::ToolCallStart(id, name)
    } else if e0.start_emitted && delta.len() > 0 {
        OutputView::ToolCallDelta(id, delta)
    } else {
        OutputView::Nothing
    };
    (CollectorView { calls: calls1.update(i, e1), pending, ..c }, out)
}

/// The calls after a captured call supersedes any call with its id.
pub open spec fn upsert_call(calls: Seq<PartialView>, p: PartialView) -> Seq<PartialView> {
    match find_call(calls, p.id) {
        Some(i) => calls.update(i, p),
        None => calls.push(p),
    }
}

/// The calls a stream end's captured calls make, starting from none.
pub open spec fn captured_calls(cs: Seq<CapturedToolCall>) -> Seq<PartialView>
    decreases cs.len(),
{
    if cs.len() == 0 {
        Seq::empty()
    } else {
        upsert_call(
            captured_calls(cs.drop_last()),
            PartialView {
                id: cs.last().call_id@,
                name: cs.last().fn_name@,
                arguments: json_value_text(cs.last().arguments.view()),
                start_emitted: true,
            },
        )
    }
}

/// The collector after the end of the stream: what the provider captured
/// supersedes what was streamed.
pub open spec fn end_step(c: CollectorView, e: StreamEnd) -> CollectorView {
    CollectorView {
        end_seen: true,
        usage: match e.captured_usage {
            Some(u) => Some(map_usage_spec(u)),
            None => c.usage,
        },
        stop_reason: match e.captured_stop_reason {
            Some(r) => map_stop_reason_spec(r),
            None => c.stop_reason,
        },
        calls: match e.captured_tool_calls {
            Some(cs) => captured_calls(cs@),
            None => c.calls,
        },
        text: match e.captured_first_text {
            Some(t) => t@,
            None => c.text,
        },
        ..c
    }
}

/// The collector and output after an event.
pub open spec fn process_spec(c: CollectorView, ev: StreamEvent) -> (CollectorView, OutputView) {
    match ev {
        StreamEvent::Start => (c, OutputView::Nothing),
        StreamEvent::Chunk(s) => (CollectorView { text: c.text + s@, ..c }, OutputView::TextDelta(s@)),
        StreamEvent::ReasoningChunk(s) => (c, OutputView::ReasoningDelta(s@)),
        StreamEvent::ThoughtSignatureChunk => (c, OutputView::Nothing),
        StreamEvent::ToolCallChunk(ch) => chunk_step(c, ch),
        StreamEvent::End(e) => (end_step(c, e), OutputView::Nothing),
    }
}

/// The collector after the events `evs`, starting from `c`.
pub open spec fn collect(c: CollectorView, evs: Seq<StreamEvent>) -> CollectorView
    decreases evs.len(),
{
    if evs.len() == 0 {
        c
    } else {
        process_spec(collect(c, evs.drop_last()), evs.last()).0
    }
}

/// The text chunks among `evs`, concatenated in order.
pub open spec fn chunk_text(evs: Seq<StreamEvent>) -> Seq<char>
    decreases evs.len(),
{
    if evs.len() == 0 {
        Seq::empty()
    } else {
        chunk_text(evs.drop_last()) + match evs.last() {
            StreamEvent::Chunk(s) => s@,
            _ => Seq::empty(),
        }
    }
}

/// Text accumulates: over any events without an end that captured text, the
/// collected text is the text it started with followed by the text chunks
/// in order; reasoning, tool-call chunks and the rest add nothing.
pub proof fn lemma_text_accumulates(c: CollectorView, evs: Seq<StreamEvent>)
    requires
        forall|i: int|
            0 <= i < evs.len() ==> !(#[trigger] evs[i] matches StreamEvent::End(e)
                && e.captured_first_text is Some),
    ensures
        collect(c, evs).text == c.text + chunk_text(evs),
    decreases evs.len(),
{
    if evs.len() == 0 {
        assert(c.text + Seq::<char>::empty() =~= c.text);
    } else {
        let init = evs.drop_last();
        assert forall|i: int|
            0 <= i < init.len() implies !(#[trigger] init[i] matches StreamEvent::End(e)
                && e.captured_first_text is Some) by {
            assert(init[i] == evs[i]);
        }
        lemma_text_accumulates(c, init);
        assert(evs[evs.len() - 1] == evs.last());
        match evs.last() {
            StreamEvent::Chunk(s) => {
                assert(c.text + chunk_text(init) + s@ =~= c.text + (chunk_text(init) + s@));
            },
            _ => {
                assert(chunk_text(init) + Seq::<char>::empty() =~= chunk_text(init));
            },
        }
    }
}

/// From a new collector, the collected text after events without an end
/// that captured text is exactly the text chunks, in order.
pub proof fn lemma_new_collector_text(c: CollectorView, evs: Seq<StreamEvent>)
    requires
        fresh_collector(c),
        forall|i: int|
            0 <= i < evs.len() ==> !(#[trigger] evs[i] matches StreamEvent::End(e)
                && e.captured_first_text is Some),
    ensures
        collect(c, evs).text == chunk_text(evs),
{
    lemma_text_accumulates(c, evs);
    assert(Seq::<char>::empty() + chunk_text(evs) =~= chunk_text(evs));
}

/// Deferred outputs are always argument deltas.
pub open spec fn pending_ok(pending: Seq<OutputView>) -> bool {
    forall|i: int| 0 <= i < pending.len() ==> #[trigger] pending[i] is ToolCallDelta
}

/// Whether tool arguments carry anything.
pub fn tool_args_have_content(arguments: &JsonValue) -> (r: bool)
    ensures
        r == args_have_content(arguments@),
{
    match arguments {
        JsonValue::Null => false,
        JsonValue::String(s) => s.as_str().unicode_len() > 0,
        JsonValue::Array(items) => {
            proof {
                crate::json::lemma_items_view(items@);
            }
            items.len() > 0
        },
        JsonValue::Object(fields) => {
            proof {
                crate::json::lemma_fields_view(fields@);
            }
            fields.len() > 0
        },
        _ => true,
    }
}

/// The argument text of a chunk.
fn chunk_args_text(chunk: &ToolCallChunk) -> (r: String)
    ensures
        r@ == chunk_args(*chunk),
{
    match &chunk.arguments {
        JsonValue::String(s) => copy_string(s),
        _ => json_text(&chunk.arguments),
    }
}

fn copy_string(s: &String) -> (r: String)
    ensures
        r@ == s@,
{
    String::from_str(s.as_str())
}

impl StreamCollector {
    pub fn new() -> (c: Self)
        ensures
            c@.text == Seq::<char>::empty(),
            c@.calls == Seq::<PartialView>::empty(),
            c@.usage is None,
            c@.stop_reason is None,
            c@.pending == Seq::<OutputView>::empty(),
            !c@.end_seen,
    {
        let c = StreamCollector {
            text: String::new(),
            tool_calls: Vec::new(),
            usage: None,
            stop_reason: None,
            pending_outputs: Vec::new(),
            end_seen: false,
        };
        proof {
            assert(partials_view(c.tool_calls@) =~= Seq::<PartialView>::empty());
            assert(c.pending_outputs@.map_values(|o: StreamOutput| o@) =~= Seq::<
                OutputView,
            >::empty());
        }
        c
    }

    /// Take the next deferred output produced by the previous provider
    /// event, if any.
    pub fn take_pending_output(&mut self) -> (r: Option<StreamOutput>)
        ensures
            old(self)@.pending.len() == 0 ==> r is None && final(self)@ == old(self)@,
            old(self)@.pending.len() > 0 ==> (r matches Some(o) && o@ == old(self)@.pending[0])
                && final(self)@ == (CollectorView {
                pending: old(self)@.pending.drop_first(),
                ..old(self)@
            }),
    {
        if self.pending_outputs.len() == 0 {
            None
        } else {
            let ghost before = self.pending_outputs@;
            let o = self.pending_outputs.remove(0);
            proof {
                assert(self.pending_outputs@.map_values(|o: StreamOutput| o@) =~= before.map_values(
                    |o: StreamOutput| o@,
                ).drop_first());
            }
            Some(o)
        }
    }

    /// Take accumulated usage data, if any; `Some` once, then `None`.
    pub fn take_usage(&mut self) -> (r: Option<TokenUsage>)
        ensures
            r == old(self)@.usage,
            final(self)@ == (CollectorView { usage: None, ..old(self)@ }),
    {
        let r = self.usage;
        self.usage = None;
        r
    }

    /// Whether the end of the stream has been processed.
    pub fn end_seen(&self) -> (r: bool)
        ensures
            r == self@.end_seen,
    {
        self.end_seen
    }

    fn find(&self, id: &str) -> (r: Option<usize>)
        ensures
            match r {
                Some(i) => find_call(self@.calls, id@) == Some(i as int) && i < self.tool_calls@.len(),
                None => find_call(self@.calls, id@) is None,
            },
    {
        let n = self.tool_calls.len();
        let mut i: usize = 0;
        while i < n
            invariant
                n == self.tool_calls@.len(),
                i <= n,
                find_call(self@.calls.subrange(0, i as int), id@) is None,
            decreases n - i,
        {
            proof {
                let s = self@.calls.subrange(0, i + 1);
                assert(s.drop_last() =~= self@.calls.subrange(0, i as int));
            }
            if str_eq(self.tool_calls[i].id.as_str(), id) {
                proof {
                    lemma_find_prefix(self@.calls, id@, i as int);
                }
                return Some(i);
            }
            i = i + 1;
        }
        proof {
            assert(self@.calls.subrange(0, n as int) =~= self@.calls);
        }
        None
    }

    /// The byte length of the arguments held for the call with id `id`.
    fn held_len(&self, id: &str) -> (r: usize)
        ensures
            r as nat == match find_call(self@.calls, id@) {
                Some(i) => byte_len(self@.calls[i].arguments),
                None => 0,
            },
    {
        match self.find(id) {
            Some(i) => self.tool_calls[i].arguments.as_str().as_bytes().len(),
            None => 0,
        }
    }

    /// Whether [`StreamCollector::process`] can take `event`: a tool-call
    /// chunk must not cut a character where its delta begins.
    pub fn accepts(&self, event: &StreamEvent) -> (r: bool)
        ensures
            r == event_ok(self@, *event),
    {
        match event {
            StreamEvent::ToolCallChunk(chunk) => {
                let held = self.held_len(chunk.call_id.as_str());
                let args_str = chunk_args_text(chunk);
                args_str.as_str().as_bytes().len() <= held || args_str.as_str().is_char_boundary(held)
            },
            _ => true,
        }
    }

    fn apply_chunk(&mut self, chunk: ToolCallChunk) -> (out: StreamOutput)
        requires
            event_ok(old(self)@, StreamEvent::ToolCallChunk(chunk)),
        ensures
            (final(self)@, out@) == chunk_step(old(self)@, chunk),
    {
        let ghost c0 = self@;
        let ghost ch = chunk;
        let has_content = tool_args_have_content(&chunk.arguments);
        let args_str = chunk_args_text(&chunk);
        let found = self.find(chunk.call_id.as_str());
        let (i, prev_len) = match found {
            Some(i) => (i, self.tool_calls[i].arguments.as_str().as_bytes().len()),
            None => {
                self.tool_calls.push(
                    PartialToolCall {
                        id: copy_string(&chunk.call_id),
                        name: String::new(),
                        arguments: String::new(),
                        start_emitted: false,
                    },
                );
                proof {
                    assert(partials_view(self.tool_calls@) =~= c0.calls.push(
                        PartialView {
                            id: chunk.call_id@,
                            name: Seq::empty(),
                            arguments: Seq::empty(),
                            start_emitted: false,
                        },
                    ));
                }
                (self.tool_calls.len() - 1, 0)
            },
        };
        let ghost calls1 = self@.calls;
        let was_emitted = self.tool_calls[i].start_emitted;
        let name = if chunk.fn_name.as_str().unicode_len() > 0 {
            copy_string(&chunk.fn_name)
        } else {
            copy_string(&self.tool_calls[i].name)
        };
        let args_len = args_str.as_str().as_bytes().len();
        let delta = if args_len > prev_len {
            let (_, tail) = args_str.as_str().split_at(prev_len);
            proof {
                broadcast use vstd::utf8::encode_utf8_decode_utf8;

                assert(tail@ == decode_utf8(encode_utf8(tail@)));
            }
            tail.to_owned()
        } else {
            String::new()
        };
        let start = !was_emitted && name.as_str().unicode_len() > 0;
        let entry_id = copy_string(&self.tool_calls[i].id);
        let start_name = copy_string(&name);
        let ghost pending0 = self.pending_outputs@;
        if start && has_content {
            self.pending_outputs.push(
                StreamOutput::ToolCallDelta {
                    id: copy_string(&chunk.call_id),
                    args_delta: copy_string(&args_str),
                },
            );
            proof {
                assert(self.pending_outputs@.map_values(|o: StreamOutput| o@) =~= pending0.map_values(
                    |o: StreamOutput| o@,
                ).push(OutputView::ToolCallDelta(chunk.call_id@, args_str@)));
            }
        }
        let new_entry = PartialToolCall {
            id: entry_id,
            name,
            arguments: args_str,
            start_emitted: was_emitted || start,
        };
        let ghost tc = self.tool_calls@;
        self.tool_calls.set(i, new_entry);
        proof {
            assert(partials_view(self.tool_calls@) =~= calls1.update(i as int, new_entry.view()));
        }
        if start {
            StreamOutput::ToolCallStart { id: chunk.call_id, name: start_name }
        } else if was_emitted && delta.as_str().unicode_len() > 0 {
            StreamOutput::ToolCallDelta { id: chunk.call_id, args_delta: delta }
        } else {
            StreamOutput::Empty
        }
    }

    fn apply_end(&mut self, end: StreamEnd)
        ensures
            final(self)@ == end_step(old(self)@, end),
    {
        let ghost e = end;
        self.end_seen = true;
        match end.captured_usage {
            Some(u) => {
                self.usage = Some(map_usage(&u));
            },
            None => {},
        }
        match end.captured_stop_reason {
            Some(r) => {
                self.stop_reason = map_stop_reason(&r);
            },
            None => {},
        }
        match end.captured_tool_calls {
            Some(captured) => {
                self.tool_calls = Vec::new();
                let ghost all = captured@;
                let mut rest = captured;
                let mut k: usize = 0;
                let total = rest.len();
                let ghost text0 = self.text;
                let ghost usage0 = self.usage;
                let ghost stop0 = self.stop_reason;
                let ghost pending0 = self.pending_outputs;
                let ghost end0 = self.end_seen;
                proof {
                    assert(partials_view(self.tool_calls@) =~= captured_calls(all.subrange(0, 0)));
                }
                while rest.len() > 0
                    invariant
                        total == all.len(),
                        k <= all.len(),
                        rest@ == all.subrange(k as int, all.len() as int),
                        partials_view(self.tool_calls@) == captured_calls(all.subrange(0, k as int)),
                        self.text == text0,
                        self.usage == usage0,
                        self.stop_reason == stop0,
                        self.pending_outputs == pending0,
                        self.end_seen == end0,
                    decreases rest@.len(),
                {
                    let call = rest.remove(0);
                    proof {
                        assert(all[k as int] == call);
                        assert(all.subrange(0, k + 1).drop_last() =~= all.subrange(0, k as int));
                        assert(rest@ =~= all.subrange(k + 1, all.len() as int));
                    }
                    let p = PartialToolCall {
                        id: call.call_id,
                        name: call.fn_name,
                        arguments: json_text(&call.arguments),
                        start_emitted: true,
                    };
                    match self.find(p.id.as_str()) {
                        Some(i) => {
                            let ghost before = self.tool_calls@;
                            self.tool_calls.set(i, p);
                            proof {
                                assert(partials_view(self.tool_calls@) =~= partials_view(
                                    before,
                                ).update(i as int, p.view()));
                            }
                        },
                        None => {
                            let ghost before = self.tool_calls@;
                            self.tool_calls.push(p);
                            proof {
                                assert(partials_view(self.tool_calls@) =~= partials_view(
                                    before,
                                ).push(p.view()));
                            }
                        },
                    }
                    k = k + 1;
                }
                proof {
                    assert(all.subrange(0, k as int) =~= all);
                }
            },
            None => {},
        }
        match end.captured_first_text {
            Some(t) => {
                self.text = t;
            },
            None => {},
        }
    }

    /// Process a stream event; returns what to emit to the event sink.
    pub fn process(&mut self, event: StreamEvent) -> (out: StreamOutput)
        requires
            event_ok(old(self)@, event),
        ensures
            (final(self)@, out@) == process_spec(old(self)@, event),
    {
        match event {
            StreamEvent::Start => StreamOutput::Empty,
            StreamEvent::Chunk(content) => {
                self.text.append(content.as_str());
                StreamOutput::TextDelta(content)
            },
            StreamEvent::ReasoningChunk(content) => StreamOutput::ReasoningDelta(content),
            StreamEvent::ThoughtSignatureChunk => StreamOutput::Empty,
            StreamEvent::ToolCallChunk(chunk) => self.apply_chunk(chunk),
            StreamEvent::End(end) => {
                self.apply_end(end);
                StreamOutput::Empty
            },
        }
    }
}

proof fn lemma_find_prefix(calls: Seq<PartialView>, id: Seq<char>, i: int)
    requires
        0 <= i < calls.len(),
        find_call(calls.subrange(0, i), id) is None,
        calls[i].id == id,
    ensures
        find_call(calls, id) == Some(i),
    decreases calls.len() - i,
{
    let s = calls.subrange(0, i + 1);
    assert(s.drop_last() =~= calls.subrange(0, i));
    assert(find_call(s, id) == Some(i));
    lemma_find_extends(calls, id, i + 1);
}

proof fn lemma_find_extends(calls: Seq<PartialView>, id: Seq<char>, k: int)
    requires
        0 <= k <= calls.len(),
        find_call(calls.subrange(0, k), id) is Some,
    ensures
        find_call(calls, id) == find_call(calls.subrange(0, k), id),
    decreases calls.len() - k,
{
    if k < calls.len() {
        let s = calls.subrange(0, k + 1);
        assert(s.drop_last() =~= calls.subrange(0, k));
        lemma_find_extends(calls, id, k + 1);
    } else {
        assert(calls.subrange(0, k) =~= calls);
    }
}

// ---------------------------------------------------------------------------
// The final result
// ---------------------------------------------------------------------------

/// Whether `s` is JSON text, and if so whether it is `null`, as
/// `serde_json::from_str::<serde_json::Value>` decides it.
pub uninterp spec fn json_text_class(s: Seq<char>) -> Option<bool>;

/// `serde_json::from_str::<serde_json::Value>`, reduced to what the
/// collector needs: `None` when `s` is not JSON text, else whether the
/// value is `null`. The result depends on `s` alone.
#[verifier::external_body]
fn classify_json_text(s: &str) -> (r: Option<bool>)
    ensures
        r == json_text_class(s@),
{
    match serde_json::from_str::<serde_json::Value>(s) {
        Ok(v) => Some(v.is_null()),
        Err(_) => None,
    }
}

/// A tool call of the final result.
pub struct CollectedToolCall {
    pub id: String,
    pub name: String,
    /// The JSON text of the call's arguments.
    pub arguments_json: String,
}

/// The characters of a collected tool call.
pub struct CallView {
    pub id: Seq<char>,
    pub name: Seq<char>,
    pub arguments: Seq<char>,
}

impl View for CollectedToolCall {
    type V = CallView;

    open spec fn view(&self) -> CallView {
        CallView { id: self.id@, name: self.name@, arguments: self.arguments_json@ }
    }
}

/// The final result of a streamed inference.
pub struct StreamResult {
    /// The text the model produced (empty when it produced none).
    pub text: String,
    pub tool_calls: Vec<CollectedToolCall>,
    pub usage: Option<TokenUsage>,
    pub stop_reason: Option<StopReason>,
    /// Whether some tool call was dropped: it had no name, or arguments that
    /// are not JSON text (or are a JSON `null`).
    pub has_incomplete_tool_calls: bool,
}

/// The calls of a whole (not streamed) response, each with its arguments'
/// JSON text.
pub open spec fn response_calls(cs: Seq<CapturedToolCall>) -> Seq<CallView> {
    cs.map_values(
        |c: CapturedToolCall|
            CallView { id: c.call_id@, name: c.fn_name@, arguments: json_value_text(c.arguments.view()) },
    )
}

/// The result of a whole (not streamed) response: its first text (empty,
/// that is no content, when it has none), every tool call it made with the
/// JSON text of its arguments, the mapped usage and stop reason; no call is
/// dropped.
pub fn response_result(
    first_text: Option<String>,
    tool_calls: Vec<CapturedToolCall>,
    usage: &ProviderUsage,
    stop_reason: Option<ProviderStopReason>,
) -> (r: StreamResult)
    ensures
        r.text@ == match first_text {
            Some(t) => t@,
            None => Seq::<char>::empty(),
        },
        r.tool_calls@.map_values(|c: CollectedToolCall| c@) == response_calls(tool_calls@),
        r.usage == Some(map_usage_spec(*usage)),
        r.stop_reason == match stop_reason {
            Some(s) => map_stop_reason_spec(s),
            None => None,
        },
        !r.has_incomplete_tool_calls,
{
    let text = match first_text {
        Some(t) => t,
        None => String::new(),
    };
    let mut calls: Vec<CollectedToolCall> = Vec::new();
    let mut i: usize = 0;
    while i < tool_calls.len()
        invariant
            i <= tool_calls@.len(),
            calls@.map_values(|c: CollectedToolCall| c@) == response_calls(tool_calls@.subrange(0, i as int)),
        decreases tool_calls@.len() - i,
    {
        let c = &tool_calls[i];
        let ghost before = calls@;
        calls.push(
            CollectedToolCall {
                id: copy_string(&c.call_id),
                name: copy_string(&c.fn_name),
                arguments_json: json_text(&c.arguments),
            },
        );
        proof {
            let sub = tool_calls@.subrange(0, i + 1);
            assert(sub =~= tool_calls@.subrange(0, i as int).push(tool_calls@[i as int]));
            assert(response_calls(sub) =~= response_calls(tool_calls@.subrange(0, i as int)).push(
                response_calls(sub)[i as int],
            ));
            assert(calls@.map_values(|c: CollectedToolCall| c@) =~= before.map_values(
                |c: CollectedToolCall| c@,
            ).push(calls@[i as int]@));
        }
        i = i + 1;
    }
    proof {
        assert(tool_calls@.subrange(0, tool_calls@.len() as int) =~= tool_calls@);
    }
    let stop = match &stop_reason {
        Some(s) => map_stop_reason(s),
        None => None,
    };
    StreamResult {
        text,
        tool_calls: calls,
        usage: Some(map_usage(usage)),
        stop_reason: stop,
        has_incomplete_tool_calls: false,
    }
}

/// The arguments a finished call keeps, given `class`, the classification
/// of its arguments text (see [`json_text_class`]); `None` when the call is
/// incomplete. A call without a name is incomplete; so is one whose
/// non-empty arguments are not JSON text or are `null`. A call with empty
/// arguments gets `null` arguments.
pub open spec fn kept_arguments(name: Seq<char>, args: Seq<char>, class: Option<bool>) -> Option<
    Seq<char>,
> {
    let null_like = match class {
        Some(is_null) => is_null,
        None => true,
    };
    if name.len() == 0 || (null_like && args.len() > 0) {
        None
    } else if class == Some(false) {
        Some(args)
    } else {
        Some("null"@)
    }
}

/// The complete tool calls among `calls`, in order, and whether any was
/// incomplete (see [`kept_arguments`]).
pub open spec fn finish_calls(calls: Seq<PartialView>) -> (Seq<CallView>, bool)
    decreases calls.len(),
{
    if calls.len() == 0 {
        (Seq::empty(), false)
    } else {
        let (done, incomplete) = finish_calls(calls.drop_last());
        let p = calls.last();
        match kept_arguments(p.name, p.arguments, json_text_class(p.arguments)) {
            None => (done, true),
            Some(a) => (done.push(CallView { id: p.id, name: p.name, arguments: a }), incomplete),
        }
    }
}

/// Finish one streamed tool call, given `class`, the classification of its
/// arguments text: the collected call, or `None` when it is incomplete.
pub fn collect_tool_call(id: String, name: String, arguments: String, class: Option<bool>) -> (r:
    Option<CollectedToolCall>)
    ensures
        match kept_arguments(name@, arguments@, class) {
            Some(a) => r matches Some(c) && c@ == (CallView { id: id@, name: name@, arguments: a }),
            None => r is None,
        },
{
    if name.as_str().unicode_len() == 0 {
        return None;
    }
    let null_like = match class {
        Some(is_null) => is_null,
        None => true,
    };
    if null_like && arguments.as_str().unicode_len() > 0 {
        return None;
    }
    let arguments_json = match class {
        Some(false) => arguments,
        _ => String::from_str("null"),
    };
    Some(CollectedToolCall { id, name, arguments_json })
}

impl StreamCollector {
    /// Finalize the collector into a [`StreamResult`].
    pub fn finish(self) -> (r: StreamResult)
        ensures
            r.text@ == self@.text,
            r.tool_calls@.map_values(|c: CollectedToolCall| c@) == finish_calls(self@.calls).0,
            r.has_incomplete_tool_calls == finish_calls(self@.calls).1,
            r.usage == self@.usage,
            r.stop_reason == self@.stop_reason,
    {
        let ghost calls = self@.calls;
        let mut rest = self.tool_calls;
        let ghost all = rest@;
        let total = rest.len();
        let mut out: Vec<CollectedToolCall> = Vec::new();
        let mut incomplete = false;
        let mut k: usize = 0;
        proof {
            assert(partials_view(all.subrange(0, 0)) =~= Seq::<PartialView>::empty());
            assert(out@.map_values(|c: CollectedToolCall| c@) =~= Seq::<CallView>::empty());
        }
        while rest.len() > 0
            invariant
                total == all.len(),
                calls == partials_view(all),
                k <= all.len(),
                rest@ == all.subrange(k as int, all.len() as int),
                (out@.map_values(|c: CollectedToolCall| c@), incomplete) == finish_calls(
                    partials_view(all.subrange(0, k as int)),
                ),
            decreases rest@.len(),
        {
            let p = rest.remove(0);
            proof {
                assert(all[k as int] == p);
                assert(rest@ =~= all.subrange(k + 1, all.len() as int));
                let s = partials_view(all.subrange(0, k + 1));
                assert(s.drop_last() =~= partials_view(all.subrange(0, k as int)));
                assert(s.last() == p.view());
            }
            let ghost prev = out@;
            let class = classify_json_text(p.arguments.as_str());
            match collect_tool_call(p.id, p.name, p.arguments, class) {
                Some(call) => {
                    out.push(call);
                    proof {
                        assert(out@.map_values(|c: CollectedToolCall| c@) =~= prev.map_values(
                            |c: CollectedToolCall| c@,
                        ).push(call@));
                    }
                },
                None => {
                    incomplete = true;
                },
            }
            k = k + 1;
        }
        proof {
            assert(all.subrange(0, k as int) =~= all);
        }
        StreamResult {
            text: self.text,
            tool_calls: out,
            usage: self.usage,
            stop_reason: self.stop_reason,
            has_incomplete_tool_calls: incomplete,
        }
    }
}

// ---------------------------------------------------------------------------
// The event stream handed to the loop
// ---------------------------------------------------------------------------

/// An event of the inference stream the agent loop consumes.
pub enum LlmStreamEvent {
    TextDelta(String),
    ReasoningDelta(String),
    ToolCallStart { id: String, name: String },
    ToolCallDelta { id: String, args_delta: String },
    Usage(TokenUsage),
    Stop(StopReason),
}

/// The characters an inference stream event carries.
pub enum LlmEventView {
    TextDelta(Seq<char>),
    ReasoningDelta(Seq<char>),
    ToolCallStart(Seq<char>, Seq<char>),
    ToolCallDelta(Seq<char>, Seq<char>),
    Usage(TokenUsage),
    Stop(StopReason),
}

impl View for LlmStreamEvent {
    type V = LlmEventView;

    open spec fn view(&self) -> LlmEventView {
        match self {
            LlmStreamEvent::TextDelta(s) => LlmEventView::TextDelta(s@),
            LlmStreamEvent::ReasoningDelta(s) => LlmEventView::ReasoningDelta(s@),
            LlmStreamEvent::ToolCallStart { id, name } => LlmEventView::ToolCallStart(id@, name@),
            LlmStreamEvent::ToolCallDelta { id, args_delta } => LlmEventView::ToolCallDelta(
                id@,
                args_delta@,
            ),
            LlmStreamEvent::Usage(u) => LlmEventView::Usage(*u),
            LlmStreamEvent::Stop(r) => LlmEventView::Stop(*r),
        }
    }
}

/// The loop event of a collector output; an empty output has none.
pub open spec fn llm_event_spec(o: OutputView) -> Option<LlmEventView> {
    match o {
        OutputView::TextDelta(s) => Some(LlmEventView::TextDelta(s)),
        OutputView::ReasoningDelta(s) => Some(LlmEventView::ReasoningDelta(s)),
        OutputView::ToolCallStart(id, name) => Some(LlmEventView::ToolCallStart(id, name)),
        OutputView::ToolCallDelta(id, d) => Some(LlmEventView::ToolCallDelta(id, d)),
        OutputView::Nothing => None,
    }
}

/// The loop event of a collector output.
pub fn stream_output_to_llm_event(output: StreamOutput) -> (r: Option<LlmStreamEvent>)
    ensures
        match r {
            Some(e) => llm_event_spec(output@) == Some(e@),
            None => llm_event_spec(output@) is None,
        },
{
    match output {
        StreamOutput::TextDelta(d) => Some(LlmStreamEvent::TextDelta(d)),
        StreamOutput::ReasoningDelta(d) => Some(LlmStreamEvent::ReasoningDelta(d)),
        StreamOutput::ToolCallStart { id, name } => Some(LlmStreamEvent::ToolCallStart { id, name }),
        StreamOutput::ToolCallDelta { id, args_delta } => Some(
            LlmStreamEvent::ToolCallDelta { id, args_delta },
        ),
        StreamOutput::Empty => None,
    }
}

proof fn lemma_process_pending_ok(c: CollectorView, ev: StreamEvent)
    requires
        pending_ok(c.pending),
    ensures
        pending_ok(process_spec(c, ev).0.pending),
{
    match ev {
        StreamEvent::ToolCallChunk(ch) => {
            let p = process_spec(c, ev).0.pending;
            assert forall|i: int| 0 <= i < p.len() implies #[trigger] p[i] is ToolCallDelta by {
                if i < c.pending.len() {
                    assert(p[i] == c.pending[i]);
                }
            }
        },
        _ => {},
    }
}

/// What the stream does on a poll: emit an event, or pull the next
/// provider event.
pub enum PollStep {
    Emit(LlmStreamEvent),
    Pull,
}

/// The per-poll decisions of an inference event stream: deferred outputs
/// first; once the end has been seen, the stop event; otherwise the next
/// provider event is needed.
pub struct StreamDriver {
    collector: StreamCollector,
}

/// The collector a driver starts with, and returns to after each stop.
pub open spec fn fresh_collector(c: CollectorView) -> bool {
    &&& c.text == Seq::<char>::empty()
    &&& c.calls == Seq::<PartialView>::empty()
    &&& c.usage is None
    &&& c.stop_reason is None
    &&& c.pending == Seq::<OutputView>::empty()
    &&& !c.end_seen
}

/// The stop reason reported at the end of a stream.
pub open spec fn final_stop(c: CollectorView) -> StopReason {
    match c.stop_reason {
        Some(r) => r,
        None => StopReason::EndTurn,
    }
}

impl StreamDriver {
    /// What the driver's collector holds.
    pub closed spec fn collector_view(&self) -> CollectorView {
        self.collector@
    }

    /// The driver's collector holds only argument deltas as deferred outputs.
    pub open spec fn wf(&self) -> bool {
        pending_ok(self.collector_view().pending)
    }

    pub fn new() -> (d: Self)
        ensures
            d.wf(),
            fresh_collector(d.collector_view()),
    {
        StreamDriver { collector: StreamCollector::new() }
    }

    fn finish_and_reset(&mut self) -> (stop: StopReason)
        ensures
            stop == final_stop(old(self).collector_view()),
            fresh_collector(final(self).collector_view()),
    {
        let mut done = StreamCollector::new();
        core::mem::swap(&mut done, &mut self.collector);
        let result = done.finish();
        match result.stop_reason {
            Some(r) => r,
            None => StopReason::EndTurn,
        }
    }

    /// Decide what a poll does before any provider event is read.
    pub fn poll(&mut self) -> (r: PollStep)
        requires
            old(self).wf(),
        ensures
            final(self).wf(),
            ({
                let c = old(self).collector_view();
                if c.pending.len() > 0 {
                    &&& r matches PollStep::Emit(e) && llm_event_spec(c.pending[0]) == Some(e@)
                    &&& final(self).collector_view() == (CollectorView {
                        pending: c.pending.drop_first(),
                        ..c
                    })
                } else if c.end_seen {
                    &&& r matches PollStep::Emit(e) && e@ == LlmEventView::Stop(final_stop(c))
                    &&& fresh_collector(final(self).collector_view())
                } else {
                    r is Pull && final(self).collector_view() == c
                }
            }),
    {
        let ghost c = self.collector@;
        match self.collector.take_pending_output() {
            Some(o) => {
                proof {
                    assert(c.pending[0] is ToolCallDelta);
                }
                let e = stream_output_to_llm_event(o);
                proof {
                    assert forall|i: int|
                        0 <= i < self.collector@.pending.len() implies #[trigger] self.collector@.pending[i] is ToolCallDelta by {
                        assert(self.collector@.pending[i] == c.pending[i + 1]);
                    }
                }
                match e {
                    Some(e) => PollStep::Emit(e),
                    None => PollStep::Pull,
                }
            },
            None => {
                if self.collector.end_seen() {
                    let stop = self.finish_and_reset();
                    PollStep::Emit(LlmStreamEvent::Stop(stop))
                } else {
                    PollStep::Pull
                }
            },
        }
    }

    /// Whether [`StreamDriver::on_event`] can take `event`.
    pub fn accepts(&self, event: &StreamEvent) -> (r: bool)
        ensures
            r == event_ok(self.collector_view(), *event),
    {
        self.collector.accepts(event)
    }

    /// Handle the next provider event: the event to emit, if any (`None`
    /// means read the next provider event).
    pub fn on_event(&mut self, event: StreamEvent) -> (r: Option<LlmStreamEvent>)
        requires
            old(self).wf(),
            event_ok(old(self).collector_view(), event),
        ensures
            final(self).wf(),
            ({
                let is_end = event is End;
                let (c1, out) = process_spec(old(self).collector_view(), event);
                if llm_event_spec(out) is Some {
                    &&& r matches Some(e) && llm_event_spec(out) == Some(e@)
                    &&& final(self).collector_view() == c1
                } else if is_end {
                    if c1.usage is Some {
                        &&& r matches Some(e) && e@ == LlmEventView::Usage(c1.usage->0)
                        &&& final(self).collector_view() == (CollectorView { usage: None, ..c1 })
                    } else {
                        &&& r matches Some(e) && e@ == LlmEventView::Stop(final_stop(c1))
                        &&& fresh_collector(final(self).collector_view())
                    }
                } else {
                    r is None && final(self).collector_view() == c1
                }
            }),
    {
        let ghost c0 = self.collector@;
        let ghost ev = event;
        let is_end = matches!(event, StreamEvent::End(_));
        proof {
            lemma_process_pending_ok(c0, ev);
        }
        let output = self.collector.process(event);
        match stream_output_to_llm_event(output) {
            Some(e) => Some(e),
            None => {
                if is_end {
                    match self.collector.take_usage() {
                        Some(u) => Some(LlmStreamEvent::Usage(u)),
                        None => {
                            let stop = self.finish_and_reset();
                            Some(LlmStreamEvent::Stop(stop))
                        },
                    }
                } else {
                    None
                }
            },
        }
    }
}

} // verus!
