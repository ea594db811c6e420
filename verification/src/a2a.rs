//! Remote A2A delegation: configuration, reading task status responses, and
//! the decisions the polling client takes.

use vstd::prelude::*;
use vstd::string::StringExecFns;
use std::time::Duration;

use crate::json::{
    field_index, fields_view, items_view, lemma_field_index, lemma_fields_view, lemma_items_view,
    JsonValue, JsonView,
};
use crate::message::{Message, Role};
use crate::text::{
    ascii_lower_spec, join_spec, join_strings, str_eq, str_to_ascii_lowercase, str_trim,
    str_trim_end_char, trim_end_char_spec, trim_spec,
};

verus! {

/// `Some(trim(s))` when the trimmed text is not empty.
pub open spec fn trimmed_text(s: Seq<char>) -> Option<Seq<char>> {
    if trim_spec(s).len() > 0 {
        Some(trim_spec(s))
    } else {
        None
    }
}

/// A role whose messages carry the remote agent's output.
pub open spec fn agent_role(role: Seq<char>) -> bool {
    ascii_lower_spec(trim_spec(role)) == "assistant"@ || ascii_lower_spec(trim_spec(role))
        == "agent"@
}

/// The text carried by an A2A value: a non-blank string; or, for an object
/// whose `role` (if a string) is an agent role, its non-blank `text`, else
/// the text of its `content`, else the texts of its `parts` joined by blank
/// lines, else its non-blank string `data`; or, for an array, the texts of
/// its items joined by blank lines.
pub open spec fn extract_text(v: JsonView) -> Option<Seq<char>>
    decreases v,
{
    match v {
        JsonView::Str(s) => trimmed_text(s),
        JsonView::Object(fields) => {
            let ri = field_index(fields, "role"@);
            let ti = field_index(fields, "text"@);
            let ci = field_index(fields, "content"@);
            let pi = field_index(fields, "parts"@);
            let di = field_index(fields, "data"@);
            if 0 <= ri < fields.len() && fields[ri].1 is Str && !agent_role(fields[ri].1->Str_0) {
                None
            } else if 0 <= ti < fields.len() && fields[ti].1 is Str && trim_spec(
                fields[ti].1->Str_0,
            ).len() > 0 {
                Some(trim_spec(fields[ti].1->Str_0))
            } else if 0 <= ci < fields.len() {
                extract_text(fields[ci].1)
            } else if 0 <= pi < fields.len() && fields[pi].1 is Array && extract_texts(
                fields[pi].1->Array_0,
            ).len() > 0 {
                Some(join_spec(extract_texts(fields[pi].1->Array_0), "\n\n"@))
            } else if 0 <= di < fields.len() {
                match fields[di].1 {
                    JsonView::Str(s) => trimmed_text(s),
                    _ => None,
                }
            } else {
                None
            }
        },
        JsonView::Array(items) => if extract_texts(items).len() == 0 {
            None
        } else {
            Some(join_spec(extract_texts(items), "\n\n"@))
        },
        _ => None,
    }
}

/// The texts of the items that carry one, in order.
pub open spec fn extract_texts(items: Seq<JsonView>) -> Seq<Seq<char>>
    decreases items,
{
    if items.len() == 0 {
        Seq::empty()
    } else {
        let rest = extract_texts(items.drop_last());
        match extract_text(items.last()) {
            Some(t) => rest.push(t),
            None => rest,
        }
    }
}

fn trimmed_string(s: &str) -> (r: Option<String>)
    ensures
        match r {
            Some(t) => trimmed_text(s@) == Some(t@),
            None => trimmed_text(s@) is None,
        },
{
    let t = str_trim(s);
    if t.is_empty() {
        None
    } else {
        Some(String::from_str(t))
    }
}

fn extract_texts_exec(items: &Vec<JsonValue>) -> (r: Vec<String>)
    ensures
        r@.map_values(|s: String| s@) == extract_texts(items_view(items@)),
    decreases items,
{
    proof {
        lemma_items_view(items@);
    }
    let ghost iv = items_view(items@);
    let mut out: Vec<String> = Vec::new();
    let n = items.len();
    let mut i: usize = 0;
    while i < n
        invariant
            n == items@.len(),
            iv == items_view(items@),
            iv.len() == n,
            forall|j: int| 0 <= j < n ==> #[trigger] iv[j] == items@[j].view(),
            i <= n,
            out@.map_values(|s: String| s@) == extract_texts(iv.subrange(0, i as int)),
        decreases n - i,
    {
        proof {
            let p = iv.subrange(0, i + 1);
            assert(p.drop_last() =~= iv.subrange(0, i as int));
            assert(p.last() == iv[i as int]);
        }
        assert(decreases_to!(*items => items@));
        assert(decreases_to!(items@ => items@[i as int]));
        match extract_text_from_value(&items[i]) {
            Some(t) => {
                let ghost prev = out@;
                out.push(t);
                assert(out@.map_values(|s: String| s@) =~= prev.map_values(|s: String| s@).push(
                    t@,
                ));
            },
            None => {},
        }
        i = i + 1;
    }
    assert(iv.subrange(0, n as int) =~= iv);
    out
}

/// The text carried by an A2A value (see [`extract_text`]).
pub fn extract_text_from_value(value: &JsonValue) -> (r: Option<String>)
    ensures
        match r {
            Some(t) => extract_text(value.view()) == Some(t@),
            None => extract_text(value.view()) is None,
        },
    decreases value,
{
    match value {
        JsonValue::String(s) => trimmed_string(s.as_str()),
        JsonValue::Object(fields) => {
            proof {
                lemma_fields_view(fields@);
                lemma_field_index(fields_view(fields@), "role"@);
                lemma_field_index(fields_view(fields@), "text"@);
                lemma_field_index(fields_view(fields@), "content"@);
                lemma_field_index(fields_view(fields@), "parts"@);
                lemma_field_index(fields_view(fields@), "data"@);
            }
            if let Some(ri) = value.find_field("role") {
                if let JsonValue::String(role) = &fields[ri].1 {
                    let t = str_trim(role.as_str());
                    let lower = str_to_ascii_lowercase(t);
                    if !str_eq(lower.as_str(), "assistant") && !str_eq(lower.as_str(), "agent") {
                        return None;
                    }
                }
            }
            if let Some(ti) = value.find_field("text") {
                if let JsonValue::String(text) = &fields[ti].1 {
                    let t = str_trim(text.as_str());
                    if !t.is_empty() {
                        return Some(String::from_str(t));
                    }
                }
            }
            if let Some(ci) = value.find_field("content") {
                assert(decreases_to!(*value => (*value)->Object_0));
                assert(decreases_to!(*fields => fields@));
                assert(decreases_to!(fields@ => fields@[ci as int]));
                assert(decreases_to!(fields@[ci as int] => fields@[ci as int].1));
                return extract_text_from_value(&fields[ci].1);
            }
            if let Some(pi) = value.find_field("parts") {
                if let JsonValue::Array(parts) = &fields[pi].1 {
                    assert(decreases_to!(*value => (*value)->Object_0));
                    assert(decreases_to!(*fields => fields@));
                    assert(decreases_to!(fields@ => fields@[pi as int]));
                    assert(decreases_to!(fields@[pi as int] => fields@[pi as int].1));
                    assert(decreases_to!(fields@[pi as int].1 => (fields@[pi as int].1)->Array_0));
                    let texts = extract_texts_exec(parts);
                    if texts.len() > 0 {
                        return Some(join_strings(&texts, "\n\n"));
                    }
                }
            }
            if let Some(di) = value.find_field("data") {
                return match &fields[di].1 {
                    JsonValue::String(s) => trimmed_string(s.as_str()),
                    _ => None,
                };
            }
            None
        },
        JsonValue::Array(items) => {
            assert(decreases_to!(*value => (*value)->Array_0));
            let texts = extract_texts_exec(items);
            if texts.len() == 0 {
                None
            } else {
                Some(join_strings(&texts, "\n\n"))
            }
        },
        _ => None,
    }
}


/// What `Duration::from_millis` returns for `ms`.
pub uninterp spec fn duration_of_millis(ms: u64) -> Duration;

/// `Duration::from_millis`: the duration of `ms` milliseconds.
#[verifier::external_body]
fn duration_from_millis(ms: u64) -> (d: Duration)
    ensures
        d == duration_of_millis(ms),
{
    Duration::from_millis(ms)
}

/// Configuration for a remote A2A agent endpoint.
#[derive(Debug)]
pub struct A2aConfig {
    /// Base URL of the remote A2A server (e.g. "https://api.example.com").
    pub base_url: String,
    /// Optional bearer token for authentication.
    pub bearer_token: Option<String>,
    /// Target agent ID on the remote server. If `None`, omits agentId in the
    /// A2A request and lets the remote server use its default agent.
    pub target_agent_id: Option<String>,
    /// Interval between poll requests.
    pub poll_interval: Duration,
    /// Maximum time to wait for task completion.
    pub timeout: Duration,
}

/// The view of an optional string.
pub open spec fn opt_view(o: Option<String>) -> Option<Seq<char>> {
    match o {
        Some(s) => Some(s@),
        None => None,
    }
}

impl A2aConfig {
    /// Create a new A2A config with defaults for poll interval (2 s) and timeout (300 s).
    pub fn new(base_url: &str) -> (c: Self)
        ensures
            c.base_url@ == base_url@,
            c.bearer_token is None,
            c.target_agent_id is None,
            c.poll_interval == duration_of_millis(2000),
            c.timeout == duration_of_millis(300_000),
    {
        A2aConfig {
            base_url: String::from_str(base_url),
            bearer_token: None,
            target_agent_id: None,
            poll_interval: duration_from_millis(2000),
            timeout: duration_from_millis(300_000),
        }
    }

    pub fn with_bearer_token(self, token: &str) -> (c: Self)
        ensures
            c.base_url == self.base_url,
            opt_view(c.bearer_token) == Some(token@),
            c.target_agent_id == self.target_agent_id,
            c.poll_interval == self.poll_interval,
            c.timeout == self.timeout,
    {
        let mut c = self;
        c.bearer_token = Some(String::from_str(token));
        c
    }

    pub fn with_target_agent_id(self, id: &str) -> (c: Self)
        ensures
            c.base_url == self.base_url,
            c.bearer_token == self.bearer_token,
            opt_view(c.target_agent_id) == Some(id@),
            c.poll_interval == self.poll_interval,
            c.timeout == self.timeout,
    {
        let mut c = self;
        c.target_agent_id = Some(String::from_str(id));
        c
    }

    pub fn with_poll_interval(self, interval: Duration) -> (c: Self)
        ensures
            c == (A2aConfig { poll_interval: interval, ..self }),
    {
        let mut c = self;
        c.poll_interval = interval;
        c
    }

    pub fn with_timeout(self, timeout: Duration) -> (c: Self)
        ensures
            c == (A2aConfig { timeout, ..self }),
    {
        let mut c = self;
        c.timeout = timeout;
        c
    }
}

/// Task status response from the runs endpoint.
#[derive(Debug)]
pub struct A2aTaskResponse {
    pub status: String,
    pub termination_code: Option<String>,
    pub termination_detail: Option<String>,
    pub message: Option<JsonValue>,
    pub history: Vec<JsonValue>,
    pub artifacts: Vec<JsonValue>,
}

/// Status of a remote A2A task.
#[derive(Debug, Clone, Copy, PartialEq, Eq)]
pub enum RemoteTaskStatus {
    Running,
    Completed,
    Failed,
    Stopped,
    Timeout,
}

/// Snapshot of a remote A2A task's state.
#[derive(Debug, Clone)]
pub struct A2aTaskSnapshot {
    pub status: RemoteTaskStatus,
    pub error: Option<String>,
    pub done: bool,
    pub output_text: Option<String>,
}

/// The text of the first item that carries one.
pub open spec fn first_text(items: Seq<JsonView>) -> Option<Seq<char>>
    decreases items.len(),
{
    if items.len() == 0 {
        None
    } else {
        match extract_text(items[0]) {
            Some(t) => Some(t),
            None => first_text(items.drop_first()),
        }
    }
}

/// The text of the last item that carries one.
pub open spec fn last_text(items: Seq<JsonView>) -> Option<Seq<char>>
    decreases items.len(),
{
    if items.len() == 0 {
        None
    } else {
        match extract_text(items.last()) {
            Some(t) => Some(t),
            None => last_text(items.drop_last()),
        }
    }
}

/// The output of a task: the first artifact with text, else the text of
/// the message, else the latest history entry with text.
pub open spec fn output_spec(resp: A2aTaskResponse) -> Option<Seq<char>> {
    match first_text(items_view(resp.artifacts@)) {
        Some(t) => Some(t),
        None => match match resp.message {
            Some(m) => extract_text(m.view()),
            None => None,
        } {
            Some(t) => Some(t),
            None => last_text(items_view(resp.history@)),
        },
    }
}

/// The output of a task response (see [`output_spec`]).
pub fn extract_output_text(response: &A2aTaskResponse) -> (r: Option<String>)
    ensures
        opt_view(r) == output_spec(*response),
{
    proof {
        lemma_items_view(response.artifacts@);
        lemma_items_view(response.history@);
    }
    let ghost av = items_view(response.artifacts@);
    let ghost hv = items_view(response.history@);
    let n = response.artifacts.len();
    let mut i: usize = 0;
    assert(av.subrange(0, n as int) =~= av);
    while i < n
        invariant
            n == response.artifacts@.len(),
            av == items_view(response.artifacts@),
            av.len() == n,
            forall|j: int| 0 <= j < n ==> #[trigger] av[j] == response.artifacts@[j].view(),
            i <= n,
            first_text(av) == first_text(av.subrange(i as int, n as int)),
        decreases n - i,
    {
        proof {
            let rest = av.subrange(i as int, n as int);
            assert(rest.drop_first() =~= av.subrange(i + 1, n as int));
            assert(rest[0] == av[i as int]);
        }
        if let Some(t) = extract_text_from_value(&response.artifacts[i]) {
            return Some(t);
        }
        i = i + 1;
    }
    assert(av.subrange(n as int, n as int) =~= Seq::<JsonView>::empty());
    assert(first_text(av) is None);
    match &response.message {
        Some(message) => {
            assert(response.message == Some(*message));
            if let Some(t) = extract_text_from_value(message) {
                return Some(t);
            }
        },
        None => {},
    }
    let m = response.history.len();
    let mut k: usize = m;
    assert(hv.subrange(0, m as int) =~= hv);
    assert(output_spec(*response) == last_text(hv));
    while k > 0
        invariant
            output_spec(*response) == last_text(hv),
            m == response.history@.len(),
            hv == items_view(response.history@),
            hv.len() == m,
            forall|j: int| 0 <= j < m ==> #[trigger] hv[j] == response.history@[j].view(),
            k <= m,
            last_text(hv) == last_text(hv.subrange(0, k as int)),
        decreases k,
    {
        proof {
            let pre = hv.subrange(0, k as int);
            assert(pre.drop_last() =~= hv.subrange(0, k - 1));
            assert(pre.last() == hv[k - 1]);
        }
        if let Some(t) = extract_text_from_value(&response.history[k - 1]) {
            return Some(t);
        }
        k = k - 1;
    }
    assert(hv.subrange(0, 0) =~= Seq::<JsonView>::empty());
    None
}

/// The error text of a failed run: the termination detail, or
/// "remote run failed" when there is none.
pub open spec fn failure_detail(detail: Option<String>) -> Option<Seq<char>> {
    match detail {
        Some(d) => Some(d@),
        None => Some("remote run failed"@),
    }
}

/// The status of a remote task, read from its status string and (for
/// finished runs) its termination code, both trimmed and lower-cased:
/// "done"/"completed" finish as Stopped (code "cancelled"/"cancel_requested"),
/// Failed (code "error") or Completed; "failed"/"error" are Failed;
/// "cancelled"/"stopped" are Stopped; anything else is still Running.
pub open spec fn remote_status_spec(resp: A2aTaskResponse) -> RemoteTaskStatus {
    let st = ascii_lower_spec(trim_spec(resp.status@));
    if st == "done"@ || st == "completed"@ {
        match resp.termination_code {
            Some(c) => if ascii_lower_spec(trim_spec(c@)) == "cancelled"@ || ascii_lower_spec(
                trim_spec(c@),
            ) == "cancel_requested"@ {
                RemoteTaskStatus::Stopped
            } else if ascii_lower_spec(trim_spec(c@)) == "error"@ {
                RemoteTaskStatus::Failed
            } else {
                RemoteTaskStatus::Completed
            },
            None => RemoteTaskStatus::Completed,
        }
    } else if st == "failed"@ || st == "error"@ {
        RemoteTaskStatus::Failed
    } else if st == "cancelled"@ || st == "stopped"@ {
        RemoteTaskStatus::Stopped
    } else {
        RemoteTaskStatus::Running
    }
}

/// The snapshot's error: none while running; the failure detail (with a
/// default) for failures; the termination detail otherwise.
pub open spec fn remote_error_spec(resp: A2aTaskResponse) -> Option<Seq<char>> {
    match remote_status_spec(resp) {
        RemoteTaskStatus::Running => None,
        RemoteTaskStatus::Failed => failure_detail(resp.termination_detail),
        _ => opt_view(resp.termination_detail),
    }
}

/// How a task status word is read, whatever the case and surrounding
/// whitespace of the status string: "cancelled" and "stopped" give a
/// finished, stopped task carrying the termination detail; "failed" and
/// "error" a failed one whose error is the detail (or "remote run failed");
/// "done" and "completed" a completed one carrying the detail, unless the
/// termination code (also read whatever its case and whitespace) is
/// "cancelled" or "cancel_requested" (stopped, with the detail) or "error"
/// (failed, as above); and any other word, such as "working", a task still
/// running, with no error.
pub proof fn lemma_status_words(resp: A2aTaskResponse)
    ensures
        ({
            let st = ascii_lower_spec(trim_spec(resp.status@));
            &&& (st == "cancelled"@ || st == "stopped"@) ==> remote_status_spec(resp)
                == RemoteTaskStatus::Stopped && remote_error_spec(resp) == opt_view(
                resp.termination_detail,
            )
            &&& (st == "failed"@ || st == "error"@) ==> remote_status_spec(resp)
                == RemoteTaskStatus::Failed && remote_error_spec(resp) == failure_detail(
                resp.termination_detail,
            )
            &&& (st == "done"@ || st == "completed"@) ==> match resp.termination_code {
                None => remote_status_spec(resp) == RemoteTaskStatus::Completed
                    && remote_error_spec(resp) == opt_view(resp.termination_detail),
                Some(c) => {
                    let code = ascii_lower_spec(trim_spec(c@));
                    &&& (code == "cancelled"@ || code == "cancel_requested"@)
                        ==> remote_status_spec(resp) == RemoteTaskStatus::Stopped
                        && remote_error_spec(resp) == opt_view(resp.termination_detail)
                    &&& code == "error"@ ==> remote_status_spec(resp) == RemoteTaskStatus::Failed
                        && remote_error_spec(resp) == failure_detail(resp.termination_detail)
                    &&& !(code == "cancelled"@ || code == "cancel_requested"@ || code == "error"@)
                        ==> remote_status_spec(resp) == RemoteTaskStatus::Completed
                        && remote_error_spec(resp) == opt_view(resp.termination_detail)
                },
            }
            &&& !(st == "cancelled"@ || st == "stopped"@ || st == "failed"@ || st == "error"@
                || st == "done"@ || st == "completed"@) ==> remote_status_spec(resp)
                == RemoteTaskStatus::Running && remote_error_spec(resp) is None
        }),
{
    reveal_strlit("cancelled");
    reveal_strlit("stopped");
    reveal_strlit("failed");
    reveal_strlit("error");
    reveal_strlit("done");
    reveal_strlit("completed");
    reveal_strlit("cancel_requested");
    // The status words are pairwise distinct: by length, and the two
    // nine-letter words by their second letter.
    let words = seq!["done"@, "completed"@, "failed"@, "error"@, "cancelled"@, "stopped"@];
    assert(words[0].len() == 4 && words[1].len() == 9 && words[2].len() == 6 && words[3].len() == 5
        && words[4].len() == 9 && words[5].len() == 7);
    assert(words[1][1] != words[4][1]);
    assert forall|i: int, j: int| 0 <= i < j < 6 implies words[i] != words[j] by {
        if words[i].len() == words[j].len() {
            assert(i == 1 && j == 4);
            assert(words[i][1] != words[j][1]);
        }
    }
    assert(words[0] != words[2] && words[0] != words[3] && words[0] != words[4] && words[0] != words[5]);
    assert(words[1] != words[2] && words[1] != words[3] && words[1] != words[4] && words[1] != words[5]);
    assert(words[2] != words[4] && words[2] != words[5] && words[3] != words[4] && words[3] != words[5]);
}

fn failure_error(detail: &Option<String>) -> (r: Option<String>)
    ensures
        opt_view(r) == failure_detail(*detail),
{
    match detail {
        Some(d) => Some(d.clone()),
        None => Some(String::from_str("remote run failed")),
    }
}

fn clone_opt(o: &Option<String>) -> (r: Option<String>)
    ensures
        opt_view(r) == opt_view(*o),
{
    match o {
        Some(d) => Some(d.clone()),
        None => None,
    }
}

/// Map a task status response to a snapshot.
pub fn map_task_status(response: &A2aTaskResponse) -> (r: A2aTaskSnapshot)
    ensures
        r.status == remote_status_spec(*response),
        r.done == (remote_status_spec(*response) != RemoteTaskStatus::Running),
        opt_view(r.error) == remote_error_spec(*response),
        opt_view(r.output_text) == output_spec(*response),
{
    let output_text = extract_output_text(response);
    let st = str_to_ascii_lowercase(str_trim(response.status.as_str()));
    let s = st.as_str();
    if str_eq(s, "done") || str_eq(s, "completed") {
        let (cancelled, errored) = match &response.termination_code {
            Some(c) => {
                let lc = str_to_ascii_lowercase(str_trim(c.as_str()));
                (
                    str_eq(lc.as_str(), "cancelled") || str_eq(lc.as_str(), "cancel_requested"),
                    str_eq(lc.as_str(), "error"),
                )
            },
            None => (false, false),
        };
        if cancelled {
            A2aTaskSnapshot {
                status: RemoteTaskStatus::Stopped,
                error: clone_opt(&response.termination_detail),
                done: true,
                output_text,
            }
        } else if errored {
            A2aTaskSnapshot {
                status: RemoteTaskStatus::Failed,
                error: failure_error(&response.termination_detail),
                done: true,
                output_text,
            }
        } else {
            A2aTaskSnapshot {
                status: RemoteTaskStatus::Completed,
                error: clone_opt(&response.termination_detail),
                done: true,
                output_text,
            }
        }
    } else if str_eq(s, "failed") || str_eq(s, "error") {
        A2aTaskSnapshot {
            status: RemoteTaskStatus::Failed,
            error: failure_error(&response.termination_detail),
            done: true,
            output_text,
        }
    } else if str_eq(s, "cancelled") || str_eq(s, "stopped") {
        A2aTaskSnapshot {
            status: RemoteTaskStatus::Stopped,
            error: clone_opt(&response.termination_detail),
            done: true,
            output_text,
        }
    } else {
        A2aTaskSnapshot { status: RemoteTaskStatus::Running, error: None, done: false, output_text }
    }
}

/// What the poller does after a status fetch.
pub enum PollStep {
    /// Stop polling and report this snapshot.
    Finished(A2aTaskSnapshot),
    /// Sleep for the poll interval and fetch again.
    Wait(A2aTaskSnapshot),
}

/// One step of polling a task to completion: a finished snapshot is
/// reported; otherwise, once the deadline has passed, a `Timeout` snapshot
/// (error "polling timeout exceeded", keeping the output seen so far);
/// otherwise wait.
pub fn poll_step(snapshot: A2aTaskSnapshot, deadline_passed: bool) -> (r: PollStep)
    ensures
        snapshot.done ==> r == PollStep::Finished(snapshot),
        !snapshot.done && deadline_passed ==> (r matches PollStep::Finished(s) && s.status
            == RemoteTaskStatus::Timeout && s.done && opt_view(s.error) == Some(
            "polling timeout exceeded"@,
        ) && s.output_text == snapshot.output_text),
        !snapshot.done && !deadline_passed ==> r == PollStep::Wait(snapshot),
{
    if snapshot.done {
        return PollStep::Finished(snapshot);
    }
    if deadline_passed {
        return PollStep::Finished(
            A2aTaskSnapshot {
                status: RemoteTaskStatus::Timeout,
                error: Some(String::from_str("polling timeout exceeded")),
                done: true,
                output_text: snapshot.output_text,
            },
        );
    }
    PollStep::Wait(snapshot)
}

/// Outcome of a delegated run.
#[derive(Debug, Clone, PartialEq, Eq)]
pub enum DelegateRunStatus {
    Completed,
    Failed(String),
    Cancelled,
    Timeout,
}

/// Error of a delegation backend.
#[derive(Debug, Clone, PartialEq, Eq)]
pub enum AgentBackendError {
    AgentNotFound(String),
    ExecutionFailed(String),
    RemoteError(String),
}

/// Whether `(status, steps)` is the delegated run's outcome for the final
/// snapshot of a remote task.
pub open spec fn delegate_outcome_spec(
    status: DelegateRunStatus,
    steps: usize,
    snapshot: A2aTaskSnapshot,
) -> bool {
    match snapshot.status {
        RemoteTaskStatus::Completed => status == DelegateRunStatus::Completed && steps == 1,
        RemoteTaskStatus::Failed => status matches DelegateRunStatus::Failed(m) && m@ == (
        match snapshot.error {
            Some(e) => e@,
            None => "remote agent run failed"@,
        }) && steps == 0,
        RemoteTaskStatus::Stopped => status == DelegateRunStatus::Cancelled && steps == 0,
        _ => status == DelegateRunStatus::Timeout && steps == 0,
    }
}

/// The delegated run's status and step count for the final snapshot of a
/// remote task: Completed (1 step); Failed with the error (or "remote agent
/// run failed"); Stopped is Cancelled; Timeout and a still-running task are
/// Timeout. Only a completed run counts a step.
pub fn delegate_outcome(snapshot: &A2aTaskSnapshot) -> (r: (DelegateRunStatus, usize))
    ensures
        delegate_outcome_spec(r.0, r.1, *snapshot),
{
    match snapshot.status {
        RemoteTaskStatus::Completed => (DelegateRunStatus::Completed, 1),
        RemoteTaskStatus::Failed => {
            let msg = match &snapshot.error {
                Some(e) => e.clone(),
                None => String::from_str("remote agent run failed"),
            };
            (DelegateRunStatus::Failed(msg), 0)
        },
        RemoteTaskStatus::Stopped => (DelegateRunStatus::Cancelled, 0),
        RemoteTaskStatus::Timeout => (DelegateRunStatus::Timeout, 0),
        RemoteTaskStatus::Running => (DelegateRunStatus::Timeout, 0),
    }
}

/// The texts of the user messages among `ms`, in order.
pub open spec fn user_texts_spec(ms: Seq<Message>) -> Seq<Seq<char>>
    decreases ms.len(),
{
    if ms.len() == 0 {
        Seq::empty()
    } else if ms.last().role == Role::User {
        user_texts_spec(ms.drop_last()).push(ms.last().text@)
    } else {
        user_texts_spec(ms.drop_last())
    }
}

/// The texts of the user messages, in order.
fn user_texts(messages: &Vec<Message>) -> (r: Vec<String>)
    ensures
        r@.map_values(|s: String| s@) == user_texts_spec(messages@),
{
    let mut out: Vec<String> = Vec::new();
    let mut i: usize = 0;
    while i < messages.len()
        invariant
            i <= messages@.len(),
            out@.map_values(|s: String| s@) == user_texts_spec(messages@.subrange(0, i as int)),
        decreases messages@.len() - i,
    {
        proof {
            assert(messages@.subrange(0, i + 1).drop_last() =~= messages@.subrange(0, i as int));
        }
        let ghost before = out@;
        if matches!(messages[i].role, Role::User) {
            out.push(String::from_str(messages[i].text.as_str()));
            proof {
                assert(out@.map_values(|s: String| s@) =~= before.map_values(|s: String| s@).push(
                    messages@[i as int].text@,
                ));
            }
        }
        i = i + 1;
    }
    proof {
        assert(messages@.subrange(0, messages@.len() as int) =~= messages@);
    }
    out
}

/// The prompt sent to a remote agent: the texts of the user messages,
/// joined by newlines; an error when it is blank.
pub fn build_remote_prompt(messages: &Vec<Message>) -> (r: Result<String, AgentBackendError>)
    ensures
        trim_spec(join_spec(user_texts_spec(messages@), "\n"@)).len() == 0 ==> (r matches Err(
            AgentBackendError::ExecutionFailed(m),
        ) && m@ == "no user message content to send"@),
        trim_spec(join_spec(user_texts_spec(messages@), "\n"@)).len() > 0 ==> (r matches Ok(p)
            && p@ == join_spec(user_texts_spec(messages@), "\n"@)),
{
    let texts = user_texts(messages);
    let prompt = join_strings(&texts, "\n");
    if str_trim(prompt.as_str()).is_empty() {
        return Err(
            AgentBackendError::ExecutionFailed(String::from_str("no user message content to send")),
        );
    }
    Ok(prompt)
}

/// The text of a delegated run's status.
pub open spec fn delegate_status_text(s: DelegateRunStatus) -> Seq<char> {
    match s {
        DelegateRunStatus::Completed => "completed"@,
        DelegateRunStatus::Failed(m) => "failed: "@ + m@,
        DelegateRunStatus::Cancelled => "cancelled"@,
        DelegateRunStatus::Timeout => "timeout"@,
    }
}

impl DelegateRunStatus {
    /// The status as text: `completed`, `failed: <reason>`, `cancelled`,
    /// `timeout`.
    pub fn to_display_string(&self) -> (r: String)
        ensures
            r@ == delegate_status_text(*self),
    {
        match self {
            DelegateRunStatus::Completed => String::from_str("completed"),
            DelegateRunStatus::Failed(m) => {
                let mut out = String::from_str("failed: ");
                out.append(m.as_str());
                out
            },
            DelegateRunStatus::Cancelled => String::from_str("cancelled"),
            DelegateRunStatus::Timeout => String::from_str("timeout"),
        }
    }
}

/// The text of a backend error.
pub open spec fn backend_error_text(e: AgentBackendError) -> Seq<char> {
    match e {
        AgentBackendError::AgentNotFound(m) => "agent not found: "@ + m@,
        AgentBackendError::ExecutionFailed(m) => "execution failed: "@ + m@,
        AgentBackendError::RemoteError(m) => "remote error: "@ + m@,
    }
}

impl AgentBackendError {
    /// The error as text: its kind, a colon, and its detail.
    pub fn to_display_string(&self) -> (r: String)
        ensures
            r@ == backend_error_text(*self),
    {
        let (prefix, m) = match self {
            AgentBackendError::AgentNotFound(m) => ("agent not found: ", m),
            AgentBackendError::ExecutionFailed(m) => ("execution failed: ", m),
            AgentBackendError::RemoteError(m) => ("remote error: ", m),
        };
        let mut out = String::from_str(prefix);
        out.append(m.as_str());
        out
    }
}

/// `<base without trailing slashes>/v1/a2a/tasks/send`.
pub open spec fn submit_url_spec(base_url: Seq<char>) -> Seq<char> {
    trim_end_char_spec(base_url, '/') + "/v1/a2a/tasks/send"@
}

/// `<base without trailing slashes>/v1/threads/<trimmed task id>/runs/latest`.
pub open spec fn task_status_url_spec(base_url: Seq<char>, task_id: Seq<char>) -> Seq<char> {
    trim_end_char_spec(base_url, '/') + "/v1/threads/"@ + trim_spec(task_id) + "/runs/latest"@
}

impl A2aConfig {
    /// The endpoint a task is submitted to.
    pub fn submit_url(&self) -> (r: String)
        ensures
            r@ == submit_url_spec(self.base_url@),
    {
        let mut s = String::from_str(str_trim_end_char(self.base_url.as_str(), '/'));
        s.append("/v1/a2a/tasks/send");
        s
    }

    /// The endpoint the latest run of a task is read from (the task id is
    /// the remote thread id).
    pub fn task_status_url(&self, task_id: &str) -> (r: String)
        ensures
            r@ == task_status_url_spec(self.base_url@, task_id@),
    {
        let mut s = String::from_str(str_trim_end_char(self.base_url.as_str(), '/'));
        s.append("/v1/threads/");
        s.append(str_trim(task_id));
        s.append("/runs/latest");
        s
    }

    /// The body of a task submission: a user message with one text part,
    /// and the target agent's id when one is configured.
    pub fn submission_body(&self, prompt: &str) -> (v: JsonValue)
        ensures
            v.view() == submission_body_spec(opt_view(self.target_agent_id), prompt@),
    {
        let mut part: Vec<(String, JsonValue)> = Vec::new();
        part.push((String::from_str("type"), JsonValue::String(String::from_str("text"))));
        part.push((String::from_str("text"), JsonValue::String(String::from_str(prompt))));
        let ghost part_f = part@;
        let mut parts: Vec<JsonValue> = Vec::new();
        parts.push(JsonValue::Object(part));
        let ghost parts_f = parts@;
        let mut message: Vec<(String, JsonValue)> = Vec::new();
        message.push((String::from_str("role"), JsonValue::String(String::from_str("user"))));
        message.push((String::from_str("parts"), JsonValue::Array(parts)));
        let ghost message_f = message@;
        let mut body: Vec<(String, JsonValue)> = Vec::new();
        body.push((String::from_str("message"), JsonValue::Object(message)));
        match &self.target_agent_id {
            Some(id) => {
                body.push(
                    (String::from_str("agentId"), JsonValue::String(String::from_str(id.as_str()))),
                );
            },
            None => {},
        }
        let ghost body_f = body@;
        proof {
            lemma_fields_view(part_f);
            lemma_items_view(parts_f);
            lemma_fields_view(message_f);
            lemma_fields_view(body_f);
            assert(fields_view(part_f) =~= seq![
                ("type"@, JsonView::Str("text"@)),
                ("text"@, JsonView::Str(prompt@)),
            ]);
            assert(items_view(parts_f) =~= seq![JsonView::Object(fields_view(part_f))]);
            assert(fields_view(message_f) =~= seq![
                ("role"@, JsonView::Str("user"@)),
                ("parts"@, JsonView::Array(items_view(parts_f))),
            ]);
        }
        let v = JsonValue::Object(body);
        proof {
            let expected = match submission_body_spec(opt_view(self.target_agent_id), prompt@) {
                JsonView::Object(e) => e,
                _ => Seq::empty(),
            };
            assert(fields_view(body_f) =~= expected);
        }
        v
    }
}

/// The body of a task submission.
pub open spec fn submission_body_spec(target_agent_id: Option<Seq<char>>, prompt: Seq<char>) -> JsonView {
    let message = JsonView::Object(
        seq![
            ("role"@, JsonView::Str("user"@)),
            ("parts"@, JsonView::Array(seq![JsonView::Object(seq![
                ("type"@, JsonView::Str("text"@)),
                ("text"@, JsonView::Str(prompt)),
            ])])),
        ],
    );
    match target_agent_id {
        Some(id) => JsonView::Object(seq![("message"@, message), ("agentId"@, JsonView::Str(id))]),
        None => JsonView::Object(seq![("message"@, message)]),
    }
}

/// A step of talking to a remote A2A server that can fail.
#[derive(Debug, Clone, Copy, PartialEq, Eq)]
pub enum A2aFailure {
    /// Sending the submission failed.
    SubmitSend,
    /// The server rejected the submission.
    SubmitRejected,
    /// The submission's reply could not be decoded.
    SubmitDecode,
    /// Sending the status query failed.
    QuerySend,
    /// The server rejected the status query.
    QueryRejected,
    /// The status reply could not be decoded.
    QueryDecode,
}

/// What each failing step reports before the detail.
pub open spec fn failure_prefix(f: A2aFailure) -> Seq<char> {
    match f {
        A2aFailure::SubmitSend => "failed to submit A2A task: "@,
        A2aFailure::SubmitRejected => "A2A submission rejected: "@,
        A2aFailure::SubmitDecode => "failed to decode A2A submission: "@,
        A2aFailure::QuerySend => "failed to query task: "@,
        A2aFailure::QueryRejected => "task query rejected: "@,
        A2aFailure::QueryDecode => "failed to decode task status: "@,
    }
}

/// The remote error for a failing step, with the transport's detail.
pub fn remote_failure(f: A2aFailure, detail: &str) -> (e: AgentBackendError)
    ensures
        e matches AgentBackendError::RemoteError(m) && m@ == failure_prefix(f) + detail@,
{
    let prefix = match f {
        A2aFailure::SubmitSend => "failed to submit A2A task: ",
        A2aFailure::SubmitRejected => "A2A submission rejected: ",
        A2aFailure::SubmitDecode => "failed to decode A2A submission: ",
        A2aFailure::QuerySend => "failed to query task: ",
        A2aFailure::QueryRejected => "task query rejected: ",
        A2aFailure::QueryDecode => "failed to decode task status: ",
    };
    let mut m = String::from_str(prefix);
    m.append(detail);
    AgentBackendError::RemoteError(m)
}

} // verus!
