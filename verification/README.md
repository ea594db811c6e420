# awaken_runtime

The decision core of an agent runtime, written in Verus: the functions in
`src/` carry contracts, and Verus proves the code against them. The
exceptions are the few wrappers marked `#[verifier::external_body]`, each of
which makes one call into `std` or `serde_json` (lowercasing, trimming,
hashing, JSON text and its parsing, durations): their contracts state what that call does
and are trusted, not proved.

## Layout

- `src/` — the verified library.
  - `permission`, `execution`, `loop_actions`, `recovery`, `retry`,
    `circuit_breaker`, `inference`: the policies the agent loop applies
    (tool permissions, tool execution order, accumulated per-step actions,
    truncation recovery, retries with model fallback, the per-model circuit
    breaker, error classification).
  - `context`, `context_messages`, `prompt_segments`: what goes into a prompt
    (truncation to the context window, compaction boundaries and summaries,
    placement and storage of injected context messages).
  - `stream`: assembling a streamed inference into text, tool calls, usage
    and a stop reason, and the per-poll decisions of the event stream.
  - `background`, `handoff`, `progress`, `a2a`, `agent_tools`, `delegate`,
    `a2ui`: the extensions (background task table, agent handoff, progress
    forwarding, delegation to local and remote agents, A2UI validation).
  - `json`, `text`, `strmap`, `message`, `tool`, `plugin`, `mock`: the data
    model (JSON values, text helpers, string-keyed maps and sets, messages).
- `tests/` — tests of the library on concrete values.
- `app/` — the ordinary Rust around it: `serde_json` conversion, serializable
  records, error display, the shared circuit breaker, the retry, stream and
  sequential tool loops, delegation to a backend, and background tasks on
  tokio.

The model-provider client (the `genai` crate) is not a dependency: the
provider's stream events, usage and stop reasons enter the library as its own
plain types (`stream::StreamEvent`, `stream::ProviderUsage`,
`stream::ProviderStopReason`), and the loops in `app/` take the provider's
calls as closures.

Laws that relate several calls are public proof functions named `lemma_*`
in the module they concern.
