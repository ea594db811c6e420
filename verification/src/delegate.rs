//! Agent delegation through a backend: the delegation tool the model calls,
//! and the outcome of a run delegated to a local sub-agent.

use vstd::prelude::*;
use vstd::string::StringExecFns;

use crate::a2a::{
    backend_error_text, delegate_outcome, delegate_outcome_spec, delegate_status_text, A2aConfig,
    A2aTaskSnapshot, AgentBackendError, DelegateRunStatus,
};
use crate::agent_tools::{agent_run_id, agent_run_tool_id, prompt_args_ok, validate_prompt_args};
use crate::json::{JsonValue, JsonView};
use crate::text::{decimal, fmt_u64, str_trim, trim_spec};
use crate::tool::{ToolDescriptor, ToolError};

verus! {

/// The outcome of a delegated run.
pub struct DelegateRunResult {
    pub agent_id: String,
    pub status: DelegateRunStatus,
    /// The sub-agent's final response, if it gave one.
    pub response: Option<String>,
    pub steps: usize,
    /// The run id of the sub-agent's run, when it has one.
    pub run_id: Option<String>,
}

/// Where a delegation tool sends its work.
pub enum DelegateBackend {
    /// A sub-agent run in the same process.
    Local,
    /// A remote agent reached over the A2A protocol.
    Remote(A2aConfig),
}

/// Unified tool for agent delegation: the model calls it to delegate work
/// to a sub-agent; routing to the local or remote backend is fixed at
/// construction time.
pub struct AgentTool {
    agent_id: String,
    description: String,
    backend: DelegateBackend,
}

impl AgentTool {
    pub closed spec fn spec_agent_id(&self) -> Seq<char> {
        self.agent_id@
    }

    pub closed spec fn spec_description(&self) -> Seq<char> {
        self.description@
    }

    pub closed spec fn spec_is_local(&self) -> bool {
        self.backend is Local
    }

    /// Create a tool that delegates to a local sub-agent.
    pub fn local(agent_id: &str, description: &str) -> (t: Self)
        ensures
            t.spec_agent_id() == agent_id@,
            t.spec_description() == description@,
            t.spec_is_local(),
    {
        AgentTool {
            agent_id: String::from_str(agent_id),
            description: String::from_str(description),
            backend: DelegateBackend::Local,
        }
    }

    /// Create a tool that delegates to a remote agent via the A2A protocol.
    pub fn remote(agent_id: &str, description: &str, config: A2aConfig) -> (t: Self)
        ensures
            t.spec_agent_id() == agent_id@,
            t.spec_description() == description@,
            !t.spec_is_local(),
    {
        AgentTool {
            agent_id: String::from_str(agent_id),
            description: String::from_str(description),
            backend: DelegateBackend::Remote(config),
        }
    }

    /// Create a tool with the given backend.
    pub fn with_backend(agent_id: &str, description: &str, backend: DelegateBackend) -> (t: Self)
        ensures
            t.spec_agent_id() == agent_id@,
            t.spec_description() == description@,
            t.spec_is_local() == (backend is Local),
    {
        AgentTool {
            agent_id: String::from_str(agent_id),
            description: String::from_str(description),
            backend,
        }
    }

    /// Returns the target agent ID.
    pub fn agent_id(&self) -> (r: &str)
        ensures
            r@ == self.spec_agent_id(),
    {
        self.agent_id.as_str()
    }

    /// The backend the tool delegates to.
    pub fn backend(&self) -> (r: &DelegateBackend)
        ensures
            (*r is Local) == self.spec_is_local(),
    {
        &self.backend
    }

    /// The descriptor: ID and name `agent_run_<agent_id>`.
    pub fn descriptor(&self) -> (d: ToolDescriptor)
        ensures
            d.id@ == agent_run_tool_id(self.spec_agent_id()),
            d.name@ == agent_run_tool_id(self.spec_agent_id()),
            d.description@ == self.spec_description(),
    {
        let id = agent_run_id(self.agent_id.as_str());
        ToolDescriptor::new(id.as_str(), id.as_str(), self.description.as_str())
    }

    /// Require a string `prompt` field.
    pub fn validate_args(&self, args: &JsonValue) -> (r: Result<(), ToolError>)
        ensures
            prompt_args_ok(args.view()) ==> r is Ok,
            !prompt_args_ok(args.view()) ==> (r matches Err(ToolError::InvalidArguments(m)) && m@
                == "missing required field \"prompt\""@),
    {
        validate_prompt_args(args)
    }

    /// The prompt to delegate: the `prompt` argument trimmed (absent or
    /// non-string counts as empty); an empty prompt is refused.
    pub fn prompt(&self, args: &JsonValue) -> (r: Result<String, ToolError>)
        ensures
            ({
                let p = trim_spec(
                    match args.view().get_str("prompt"@) {
                        Some(s) => s,
                        None => Seq::empty(),
                    },
                );
                &&& p.len() > 0 ==> (r matches Ok(s) && s@ == p)
                &&& p.len() == 0 ==> (r matches Err(ToolError::InvalidArguments(m)) && m@
                    == "prompt must not be empty"@)
            }),
    {
        let raw = match args.get_str("prompt") {
            Some(s) => s,
            None => "",
        };
        proof {
            reveal_strlit("");
        }
        let trimmed = str_trim(raw);
        if trimmed.is_empty() {
            return Err(ToolError::InvalidArguments(String::from_str("prompt must not be empty")));
        }
        Ok(String::from_str(trimmed))
    }
}

/// The payload a successful delegation returns to the model.
pub open spec fn run_payload(r: DelegateRunResult) -> JsonView {
    JsonView::Object(
        seq![
            ("agent_id"@, JsonView::Str(r.agent_id@)),
            ("status"@, JsonView::Str(delegate_status_text(r.status))),
            ("response"@, match r.response {
                Some(s) => JsonView::Str(s@),
                None => JsonView::Null,
            }),
            ("steps"@, JsonView::Number(decimal(r.steps as nat))),
        ],
    )
}

/// The payload a successful delegation returns to the model: agent id,
/// status text, response (or null) and step count.
pub fn run_result_payload(result: &DelegateRunResult) -> (v: JsonValue)
    ensures
        v.view() == run_payload(*result),
{
    let response = match &result.response {
        Some(s) => JsonValue::String(String::from_str(s.as_str())),
        None => JsonValue::Null,
    };
    let mut fields: Vec<(String, JsonValue)> = Vec::new();
    fields.push((String::from_str("agent_id"), JsonValue::String(String::from_str(result.agent_id.as_str()))));
    fields.push((String::from_str("status"), JsonValue::String(result.status.to_display_string())));
    fields.push((String::from_str("response"), response));
    fields.push((String::from_str("steps"), JsonValue::Number(fmt_u64(result.steps as u64))));
    let ghost f = fields@;
    let v = JsonValue::Object(fields);
    proof {
        crate::json::lemma_fields_view(f);
        let fv = crate::json::fields_view(f);
        let expected = match run_payload(*result) {
            JsonView::Object(e) => e,
            _ => Seq::empty(),
        };
        assert(fv.len() == expected.len());
        assert forall|i: int| 0 <= i < fv.len() implies fv[i] == expected[i] by {
            assert(fv[i] == (f[i].0@, f[i].1.view()));
        }
        assert(fv =~= expected);
    }
    v
}

/// The text a failed delegation returns to the model.
pub fn run_error_text(e: &AgentBackendError) -> (r: String)
    ensures
        r@ == backend_error_text(*e),
{
    e.to_display_string()
}

/// What a delegation hands to its backend: the target agent, the prompt
/// (sent as the one user message of the sub-run), and the ids of the
/// parent run and of the tool call that delegates.
pub struct DelegateRequest {
    pub agent_id: String,
    pub prompt: String,
    pub parent_run_id: Option<String>,
    pub parent_tool_call_id: Option<String>,
}

/// What a delegation tool call reports to the model.
pub enum DelegationToolResult {
    /// The backend returned a run result: the payload, under the tool id,
    /// with the sub-run's id as `child_run_id` metadata when it has one.
    Success { tool_id: String, payload: JsonValue, child_run_id: Option<String> },
    /// The backend failed: an error result under the tool id.
    Error { tool_id: String, message: String },
}

/// The characters of an optional string.
pub open spec fn opt_str(o: Option<String>) -> Option<Seq<char>> {
    match o {
        Some(s) => Some(s@),
        None => None,
    }
}

impl AgentTool {
    /// The request a call with `args` hands to the backend, from run
    /// `parent_run_id` and tool call `call_id`: refused when the trimmed
    /// prompt is empty.
    pub fn delegation_request(&self, args: &JsonValue, parent_run_id: &str, call_id: &str) -> (r:
        Result<DelegateRequest, ToolError>)
        ensures
            ({
                let p = trim_spec(
                    match args.view().get_str("prompt"@) {
                        Some(s) => s,
                        None => Seq::empty(),
                    },
                );
                &&& p.len() > 0 ==> (r matches Ok(q) && q.agent_id@ == self.spec_agent_id()
                    && q.prompt@ == p && opt_str(q.parent_run_id) == Some(parent_run_id@)
                    && opt_str(q.parent_tool_call_id) == Some(call_id@))
                &&& p.len() == 0 ==> (r matches Err(ToolError::InvalidArguments(m)) && m@
                    == "prompt must not be empty"@)
            }),
    {
        let prompt = self.prompt(args)?;
        Ok(
            DelegateRequest {
                agent_id: String::from_str(self.agent_id.as_str()),
                prompt,
                parent_run_id: Some(String::from_str(parent_run_id)),
                parent_tool_call_id: Some(String::from_str(call_id)),
            },
        )
    }
}

/// What a delegation to `agent_id` reports for the backend's outcome: the
/// run payload (with the sub-run's id as metadata) on success, the
/// backend error's text on failure, both under the tool id
/// `agent_run_<agent_id>`.
pub fn delegation_result(agent_id: &str, outcome: Result<DelegateRunResult, AgentBackendError>) -> (r:
    DelegationToolResult)
    ensures
        outcome matches Ok(res) ==> (r matches DelegationToolResult::Success {
            tool_id,
            payload,
            child_run_id,
        } && tool_id@ == agent_run_tool_id(agent_id@) && payload.view() == run_payload(res)
            && opt_str(child_run_id) == opt_str(res.run_id)),
        outcome matches Err(e) ==> (r matches DelegationToolResult::Error { tool_id, message }
            && tool_id@ == agent_run_tool_id(agent_id@) && message@ == backend_error_text(e)),
{
    let tool_id = agent_run_id(agent_id);
    match outcome {
        Ok(res) => {
            let payload = run_result_payload(&res);
            let child_run_id = match &res.run_id {
                Some(id) => Some(String::from_str(id.as_str())),
                None => None,
            };
            DelegationToolResult::Success { tool_id, payload, child_run_id }
        },
        Err(e) => DelegationToolResult::Error { tool_id, message: run_error_text(&e) },
    }
}

/// How a sub-agent's run ended.
pub enum TerminationReason {
    NaturalEnd,
    BehaviorRequested,
    Cancelled,
    /// Stopped, with the debug rendering of the stop reason.
    Stopped(String),
    /// Blocked, with the blocking message.
    Blocked(String),
    /// Any other ending, with its debug rendering.
    Other(String),
}

/// The delegated run's status for how the sub-agent's run ended.
pub open spec fn local_status_spec(t: TerminationReason) -> (bool, Seq<char>) {
    match t {
        TerminationReason::NaturalEnd => (true, Seq::empty()),
        TerminationReason::BehaviorRequested => (true, Seq::empty()),
        TerminationReason::Cancelled => (false, Seq::empty()),
        TerminationReason::Stopped(d) => (false, "stopped: "@ + d@),
        TerminationReason::Blocked(m) => (false, "blocked: "@ + m@),
        TerminationReason::Other(d) => (false, d@),
    }
}

/// The outcome of a run delegated to a local sub-agent: a natural or
/// requested end is completion, cancellation is cancellation, anything else
/// is a failure with its reason; an empty response is no response.
pub fn local_run_result(
    agent_id: &str,
    termination: TerminationReason,
    response: String,
    steps: usize,
    run_id: String,
) -> (r: DelegateRunResult)
    ensures
        r.agent_id@ == agent_id@,
        r.steps == steps,
        r.run_id matches Some(id) && id@ == run_id@,
        match termination {
            TerminationReason::NaturalEnd | TerminationReason::BehaviorRequested => r.status
                == DelegateRunStatus::Completed,
            TerminationReason::Cancelled => r.status == DelegateRunStatus::Cancelled,
            _ => r.status matches DelegateRunStatus::Failed(m) && m@ == local_status_spec(
                termination,
            ).1,
        },
        response@.len() == 0 ==> r.response is None,
        response@.len() > 0 ==> (r.response matches Some(s) && s@ == response@),
{
    let status = match termination {
        TerminationReason::NaturalEnd => DelegateRunStatus::Completed,
        TerminationReason::BehaviorRequested => DelegateRunStatus::Completed,
        TerminationReason::Cancelled => DelegateRunStatus::Cancelled,
        TerminationReason::Stopped(d) => {
            let mut m = String::from_str("stopped: ");
            m.append(d.as_str());
            DelegateRunStatus::Failed(m)
        },
        TerminationReason::Blocked(b) => {
            let mut m = String::from_str("blocked: ");
            m.append(b.as_str());
            DelegateRunStatus::Failed(m)
        },
        TerminationReason::Other(d) => DelegateRunStatus::Failed(d),
    };
    let response = if response.as_str().is_empty() {
        None
    } else {
        Some(response)
    };
    DelegateRunResult {
        agent_id: String::from_str(agent_id),
        status,
        response,
        steps,
        run_id: Some(run_id),
    }
}

/// The error of a delegation to an agent the resolver does not know.
pub fn agent_not_found(agent_id: &str, detail: &str) -> (e: AgentBackendError)
    ensures
        e matches AgentBackendError::AgentNotFound(m) && m@ == "failed to resolve agent '"@
            + agent_id@ + "': "@ + detail@,
{
    let mut m = String::from_str("failed to resolve agent '");
    m.append(agent_id);
    m.append("': ");
    m.append(detail);
    AgentBackendError::AgentNotFound(m)
}

/// The setup step of a local sub-run's execution environment.
#[derive(Debug, Clone, Copy, PartialEq, Eq)]
pub enum LocalSetupStage {
    /// Installing the loop state.
    State,
    /// Installing the action handlers.
    ActionHandlers,
    /// Creating the phase runtime.
    Phase,
}

/// The message prefix of a failed setup step.
pub open spec fn setup_prefix(stage: LocalSetupStage) -> Seq<char> {
    match stage {
        LocalSetupStage::State => "state setup failed: "@,
        LocalSetupStage::ActionHandlers => "action handlers setup: "@,
        LocalSetupStage::Phase => "phase setup failed: "@,
    }
}

/// The error of a local sub-run whose environment could not be set up.
pub fn local_setup_failed(stage: LocalSetupStage, detail: &str) -> (e: AgentBackendError)
    ensures
        e matches AgentBackendError::ExecutionFailed(m) && m@ == setup_prefix(stage) + detail@,
{
    let mut m = match stage {
        LocalSetupStage::State => String::from_str("state setup failed: "),
        LocalSetupStage::ActionHandlers => String::from_str("action handlers setup: "),
        LocalSetupStage::Phase => String::from_str("phase setup failed: "),
    };
    m.append(detail);
    AgentBackendError::ExecutionFailed(m)
}

/// The error of a sub-agent run that failed to execute.
pub fn sub_agent_failed(agent_id: &str, detail: &str) -> (e: AgentBackendError)
    ensures
        e matches AgentBackendError::ExecutionFailed(m) && m@ == "sub-agent '"@ + agent_id@
            + "' execution failed: "@ + detail@,
{
    let mut m = String::from_str("sub-agent '");
    m.append(agent_id);
    m.append("' execution failed: ");
    m.append(detail);
    AgentBackendError::ExecutionFailed(m)
}

/// A backend for sub-agents run in the same process.
pub struct LocalBackend;

impl LocalBackend {
    pub fn new() -> (b: Self) {
        LocalBackend
    }
}

/// The outcome of a run delegated to a remote agent, from the final
/// snapshot of its task: status and steps as [`delegate_outcome`] gives
/// them, the task's output text as the response, and no local run id.
pub fn remote_run_result(agent_id: &str, snapshot: A2aTaskSnapshot) -> (r: DelegateRunResult)
    ensures
        r.agent_id@ == agent_id@,
        delegate_outcome_spec(r.status, r.steps, snapshot),
        r.response == snapshot.output_text,
        r.run_id is None,
{
    let (status, steps) = delegate_outcome(&snapshot);
    DelegateRunResult {
        agent_id: String::from_str(agent_id),
        status,
        response: snapshot.output_text,
        steps,
        run_id: None,
    }
}

} // verus!
