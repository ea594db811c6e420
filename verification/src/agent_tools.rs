//! Agent delegation tools: the local sub-agent tool and the remote A2A tool.

use vstd::prelude::*;
use vstd::string::StringExecFns;

use crate::json::{JsonValue, JsonView};
use crate::text::{str_trim, str_trim_end_char, trim_end_char_spec, trim_spec};
use crate::tool::{ToolDescriptor, ToolError};

verus! {

/// The ID under which a delegation tool for `agent_id` is offered.
pub open spec fn agent_run_tool_id(agent_id: Seq<char>) -> Seq<char> {
    "agent_run_"@ + agent_id
}

/// `agent_run_<agent_id>`.
pub fn agent_run_id(agent_id: &str) -> (r: String)
    ensures
        r@ == agent_run_tool_id(agent_id@),
{
    let mut s = String::from_str("agent_run_");
    s.append(agent_id);
    s
}

/// The check delegation tools apply to their arguments: a string `prompt`.
pub open spec fn prompt_args_ok(args: JsonView) -> bool {
    args.get_str("prompt"@) is Some
}

/// Require a string `prompt` field.
pub fn validate_prompt_args(args: &JsonValue) -> (r: Result<(), ToolError>)
    ensures
        prompt_args_ok(args.view()) ==> r is Ok,
        !prompt_args_ok(args.view()) ==> (r matches Err(ToolError::InvalidArguments(m)) && m@
            == "missing required field \"prompt\""@),
{
    if args.get_str("prompt").is_none() {
        return Err(
            ToolError::InvalidArguments(String::from_str("missing required field \"prompt\"")),
        );
    }
    Ok(())
}

/// Tool that delegates execution to a local sub-agent.
///
/// When the LLM calls this tool, the runtime resolves the target agent by
/// ID and delegates the prompt to it.
pub struct AgentTool {
    target_agent_id: String,
    description: String,
}

impl AgentTool {
    pub closed spec fn spec_target(&self) -> Seq<char> {
        self.target_agent_id@
    }

    pub closed spec fn spec_description(&self) -> Seq<char> {
        self.description@
    }

    /// Create a new agent delegation tool.
    pub fn new(target_agent_id: &str, description: &str) -> (t: Self)
        ensures
            t.spec_target() == target_agent_id@,
            t.spec_description() == description@,
    {
        AgentTool {
            target_agent_id: String::from_str(target_agent_id),
            description: String::from_str(description),
        }
    }

    /// Returns the target agent ID.
    pub fn target_agent_id(&self) -> (r: &str)
        ensures
            r@ == self.spec_target(),
    {
        self.target_agent_id.as_str()
    }

    /// The descriptor: ID and name `agent_run_<target>`.
    pub fn descriptor(&self) -> (d: ToolDescriptor)
        ensures
            d.id@ == agent_run_tool_id(self.spec_target()),
            d.name@ == agent_run_tool_id(self.spec_target()),
            d.description@ == self.spec_description(),
    {
        let id = agent_run_id(self.target_agent_id.as_str());
        ToolDescriptor::new(id.as_str(), id.as_str(), self.description.as_str())
    }

    /// Require a string `prompt` field.
    pub fn validate_args(&self, args: &JsonValue) -> (r: Result<(), ToolError>)
        ensures
            prompt_args_ok(args.view()) ==> r is Ok,
            !prompt_args_ok(args.view()) ==> (r matches Err(ToolError::InvalidArguments(m)) && m@
                == "missing required field \"prompt\""@),
    {
        validate_prompt_args(args)
    }
}

/// Configuration for a remote A2A agent endpoint.
#[derive(Debug, Clone)]
pub struct A2aEndpoint {
    /// Base URL of the remote A2A server.
    pub base_url: String,
    /// Remote agent ID on the server.
    pub remote_agent_id: String,
    /// Optional bearer token for authentication.
    pub bearer_token: Option<String>,
    /// Poll interval in milliseconds for async task completion.
    pub poll_interval_ms: u64,
}

impl A2aEndpoint {
    /// An endpoint without token, polling every 2000 ms.
    pub fn new(base_url: &str, remote_agent_id: &str) -> (e: Self)
        ensures
            e.base_url@ == base_url@,
            e.remote_agent_id@ == remote_agent_id@,
            e.bearer_token is None,
            e.poll_interval_ms == 2000,
    {
        A2aEndpoint {
            base_url: String::from_str(base_url),
            remote_agent_id: String::from_str(remote_agent_id),
            bearer_token: None,
            poll_interval_ms: 2000,
        }
    }

    pub fn with_bearer_token(self, token: &str) -> (e: Self)
        ensures
            e.base_url == self.base_url,
            e.remote_agent_id == self.remote_agent_id,
            e.bearer_token matches Some(t) && t@ == token@,
            e.poll_interval_ms == self.poll_interval_ms,
    {
        let mut e = self;
        e.bearer_token = Some(String::from_str(token));
        e
    }

    pub fn with_poll_interval_ms(self, ms: u64) -> (e: Self)
        ensures
            e == (A2aEndpoint { poll_interval_ms: ms, ..self }),
    {
        let mut e = self;
        e.poll_interval_ms = ms;
        e
    }
}

/// Status of a remote A2A task.
#[derive(Debug, Clone, Copy, PartialEq, Eq)]
pub enum RemoteTaskStatus {
    Running,
    Completed,
    Failed,
    Stopped,
}

impl RemoteTaskStatus {
    pub open spec fn as_str_spec(self) -> Seq<char> {
        match self {
            RemoteTaskStatus::Running => "running"@,
            RemoteTaskStatus::Completed => "completed"@,
            RemoteTaskStatus::Failed => "failed"@,
            RemoteTaskStatus::Stopped => "stopped"@,
        }
    }

    /// The lower-case name of the status.
    pub fn as_str(self) -> (r: &'static str)
        ensures
            r@ == self.as_str_spec(),
    {
        match self {
            RemoteTaskStatus::Running => "running",
            RemoteTaskStatus::Completed => "completed",
            RemoteTaskStatus::Failed => "failed",
            RemoteTaskStatus::Stopped => "stopped",
        }
    }

    /// Every status but `Running` is terminal.
    pub fn is_terminal(self) -> (r: bool)
        ensures
            r == !(self is Running),
    {
        !matches!(self, RemoteTaskStatus::Running)
    }
}

/// Snapshot of a remote A2A task's state.
#[derive(Debug, Clone)]
pub struct A2aTaskSnapshot {
    pub status: RemoteTaskStatus,
    pub error: Option<String>,
    pub done: bool,
    pub output_text: Option<String>,
}

/// Tool that delegates to a remote A2A agent via HTTP.
pub struct RemoteA2aTool {
    tool_id: String,
    description: String,
    endpoint: A2aEndpoint,
}

/// `<base without trailing slashes>/agents/<trimmed agent id>`.
pub open spec fn agent_url_spec(base_url: Seq<char>, agent_id: Seq<char>) -> Seq<char> {
    trim_end_char_spec(base_url, '/') + "/agents/"@ + trim_spec(agent_id)
}

impl RemoteA2aTool {
    pub closed spec fn spec_tool_id(&self) -> Seq<char> {
        self.tool_id@
    }

    pub closed spec fn spec_description(&self) -> Seq<char> {
        self.description@
    }

    pub closed spec fn spec_endpoint(&self) -> A2aEndpoint {
        self.endpoint
    }

    pub fn new(tool_id: &str, description: &str, endpoint: A2aEndpoint) -> (t: Self)
        ensures
            t.spec_tool_id() == tool_id@,
            t.spec_description() == description@,
            t.spec_endpoint() == endpoint,
    {
        RemoteA2aTool {
            tool_id: String::from_str(tool_id),
            description: String::from_str(description),
            endpoint,
        }
    }

    /// Returns the endpoint configuration.
    pub fn endpoint(&self) -> (r: &A2aEndpoint)
        ensures
            *r == self.spec_endpoint(),
    {
        &self.endpoint
    }

    /// The agent-scoped URL of the remote endpoint.
    pub fn agent_url(&self) -> (r: String)
        ensures
            r@ == agent_url_spec(
                self.spec_endpoint().base_url@,
                self.spec_endpoint().remote_agent_id@,
            ),
    {
        let base = str_trim_end_char(self.endpoint.base_url.as_str(), '/');
        let mut s = String::from_str(base);
        s.append("/agents/");
        s.append(str_trim(self.endpoint.remote_agent_id.as_str()));
        s
    }

    /// The descriptor: ID and name are the tool ID.
    pub fn descriptor(&self) -> (d: ToolDescriptor)
        ensures
            d.id@ == self.spec_tool_id(),
            d.name@ == self.spec_tool_id(),
            d.description@ == self.spec_description(),
    {
        ToolDescriptor::new(self.tool_id.as_str(), self.tool_id.as_str(), self.description.as_str())
    }

    /// Require a string `prompt` field.
    pub fn validate_args(&self, args: &JsonValue) -> (r: Result<(), ToolError>)
        ensures
            prompt_args_ok(args.view()) ==> r is Ok,
            !prompt_args_ok(args.view()) ==> (r matches Err(ToolError::InvalidArguments(m)) && m@
                == "missing required field \"prompt\""@),
    {
        validate_prompt_args(args)
    }
}

/// The prompt argument as the delegation tools read it: the `prompt`
/// string, or empty when absent or not a string.
pub open spec fn prompt_arg(args: JsonView) -> Seq<char> {
    match args.get_str("prompt"@) {
        Some(s) => s,
        None => Seq::empty(),
    }
}

fn prompt_of(args: &JsonValue) -> (r: &str)
    ensures
        r@ == prompt_arg(args.view()),
{
    proof {
        reveal_strlit("");
    }
    match args.get_str("prompt") {
        Some(s) => s,
        None => "",
    }
}

fn json_str(s: &str) -> (v: JsonValue)
    ensures
        v.view() == JsonView::Str(s@),
{
    JsonValue::String(String::from_str(s))
}

fn key(s: &str) -> (k: String)
    ensures
        k@ == s@,
{
    String::from_str(s)
}

/// The result a local delegation reports: the target, the resolved agent's
/// name, the prompt, status `delegated` and a message.
pub open spec fn delegation_payload_spec(target: Seq<char>, agent_name: Seq<char>, prompt: Seq<char>) -> JsonView {
    JsonView::Object(
        seq![
            ("agent_id"@, JsonView::Str(target)),
            ("agent_name"@, JsonView::Str(agent_name)),
            ("prompt"@, JsonView::Str(prompt)),
            ("status"@, JsonView::Str("delegated"@)),
            ("message"@, JsonView::Str(
                "Delegated to agent '"@ + target + "'. The sub-agent will process the request."@,
            )),
        ],
    )
}

impl AgentTool {
    /// What the tool reports once the target agent resolved to an agent
    /// named `agent_name`.
    pub fn delegation_payload(&self, args: &JsonValue, agent_name: &str) -> (v: JsonValue)
        ensures
            v.view() == delegation_payload_spec(self.spec_target(), agent_name@, prompt_arg(args.view())),
    {
        let prompt = prompt_of(args);
        let mut message = String::from_str("Delegated to agent '");
        message.append(self.target_agent_id.as_str());
        message.append("'. The sub-agent will process the request.");
        let mut fields: Vec<(String, JsonValue)> = Vec::new();
        fields.push((key("agent_id"), json_str(self.target_agent_id.as_str())));
        fields.push((key("agent_name"), json_str(agent_name)));
        fields.push((key("prompt"), json_str(prompt)));
        fields.push((key("status"), json_str("delegated")));
        fields.push((key("message"), JsonValue::String(message)));
        let ghost f = fields@;
        proof {
            let expected = match delegation_payload_spec(
                self.spec_target(),
                agent_name@,
                prompt_arg(args.view()),
            ) {
                JsonView::Object(e) => e,
                _ => Seq::empty(),
            };
            crate::json::lemma_fields_match(f, expected);
        }
        JsonValue::Object(fields)
    }

    /// The error when the target agent cannot be resolved.
    pub fn resolve_failure(&self, detail: &str) -> (e: ToolError)
        ensures
            e matches ToolError::ExecutionFailed(m) && m@ == "failed to resolve agent '"@
                + self.spec_target() + "': "@ + detail@,
    {
        let mut m = String::from_str("failed to resolve agent '");
        m.append(self.target_agent_id.as_str());
        m.append("': ");
        m.append(detail);
        ToolError::ExecutionFailed(m)
    }
}

/// The result a remote delegation reports when its request is submitted.
pub open spec fn submission_payload_spec(agent_id: Seq<char>, base_url: Seq<char>, prompt: Seq<char>) -> JsonView {
    JsonView::Object(
        seq![
            ("remote_agent_id"@, JsonView::Str(agent_id)),
            ("base_url"@, JsonView::Str(base_url)),
            ("prompt"@, JsonView::Str(prompt)),
            ("status"@, JsonView::Str("submitted"@)),
            ("message"@, JsonView::Str("Request submitted to remote agent '"@ + agent_id + "'."@)),
        ],
    )
}

impl RemoteA2aTool {
    /// Submit a delegation: the trimmed prompt must not be empty; the result
    /// records the remote agent, the endpoint, the prompt and status
    /// `submitted`.
    pub fn execute(&self, args: &JsonValue) -> (r: Result<JsonValue, ToolError>)
        ensures
            trim_spec(prompt_arg(args.view())).len() == 0 ==> (r matches Err(
                ToolError::InvalidArguments(m),
            ) && m@ == "prompt must not be empty"@),
            trim_spec(prompt_arg(args.view())).len() > 0 ==> (r matches Ok(v) && v.view()
                == submission_payload_spec(
                self.spec_endpoint().remote_agent_id@,
                self.spec_endpoint().base_url@,
                trim_spec(prompt_arg(args.view())),
            )),
    {
        let prompt = str_trim(prompt_of(args));
        if prompt.is_empty() {
            return Err(ToolError::InvalidArguments(String::from_str("prompt must not be empty")));
        }
        let mut message = String::from_str("Request submitted to remote agent '");
        message.append(self.endpoint.remote_agent_id.as_str());
        message.append("'.");
        let mut fields: Vec<(String, JsonValue)> = Vec::new();
        fields.push((key("remote_agent_id"), json_str(self.endpoint.remote_agent_id.as_str())));
        fields.push((key("base_url"), json_str(self.endpoint.base_url.as_str())));
        fields.push((key("prompt"), json_str(prompt)));
        fields.push((key("status"), json_str("submitted")));
        fields.push((key("message"), JsonValue::String(message)));
        let ghost f = fields@;
        proof {
            let expected = match submission_payload_spec(
                self.spec_endpoint().remote_agent_id@,
                self.spec_endpoint().base_url@,
                trim_spec(prompt_arg(args.view())),
            ) {
                JsonView::Object(e) => e,
                _ => Seq::empty(),
            };
            crate::json::lemma_fields_match(f, expected);
        }
        Ok(JsonValue::Object(fields))
    }
}

} // verus!
