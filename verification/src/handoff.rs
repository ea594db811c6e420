//! Agent handoff: a request to switch the active agent, its activation, and
//! the per-agent overlays the runtime applies to the active agent.

use vstd::prelude::*;
use vstd::string::StringExecFns;

use crate::plugin::PluginDescriptor;
use crate::strmap::StrMap;
use crate::text::str_eq;

verus! {

/// Plugin ID of the handoff extension.
pub const HANDOFF_PLUGIN_ID: &'static str = "agent_handoff";

/// The characters of an optional string.
pub open spec fn opt_view(o: Option<String>) -> Option<Seq<char>> {
    match o {
        Some(s) => Some(s@),
        None => None,
    }
}

/// Which agent is active, and which one a handoff asks for.
#[derive(Debug, Clone, Default)]
pub struct HandoffState {
    /// The agent currently active, if a handoff has been activated.
    pub active_agent: Option<String>,
    /// The agent a pending handoff asks for.
    pub requested_agent: Option<String>,
}

/// Reducer actions for [`HandoffState`].
#[derive(Debug, Clone, PartialEq, Eq)]
pub enum HandoffAction {
    /// Ask to hand off to `agent`.
    Request { agent: String },
    /// Make `agent` the active agent, settling any pending request.
    Activate { agent: String },
    /// Forget both the active agent and any request.
    Clear,
}

/// The state after an action, over the characters of the agent names.
pub open spec fn handoff_reduce_spec(
    active: Option<Seq<char>>,
    requested: Option<Seq<char>>,
    action: HandoffAction,
) -> (Option<Seq<char>>, Option<Seq<char>>) {
    match action {
        HandoffAction::Request { agent } => (active, Some(agent@)),
        HandoffAction::Activate { agent } => (Some(agent@), None),
        HandoffAction::Clear => (None, None),
    }
}

impl HandoffState {
    /// The state with nothing active and nothing requested.
    pub fn new() -> (s: Self)
        ensures
            s.active_agent is None,
            s.requested_agent is None,
    {
        HandoffState { active_agent: None, requested_agent: None }
    }

    /// Apply an action.
    pub fn reduce(&mut self, action: HandoffAction)
        ensures
            (opt_view(final(self).active_agent), opt_view(final(self).requested_agent))
                == handoff_reduce_spec(
                opt_view(old(self).active_agent),
                opt_view(old(self).requested_agent),
                action,
            ),
    {
        match action {
            HandoffAction::Request { agent } => {
                self.requested_agent = Some(agent);
            },
            HandoffAction::Activate { agent } => {
                self.active_agent = Some(agent);
                self.requested_agent = None;
            },
            HandoffAction::Clear => {
                self.active_agent = None;
                self.requested_agent = None;
            },
        }
    }
}

/// The agent the runtime should run: the requested one, else the active one.
pub open spec fn effective_agent_spec(
    active: Option<Seq<char>>,
    requested: Option<Seq<char>>,
) -> Option<Seq<char>> {
    match requested {
        Some(r) => Some(r),
        None => active,
    }
}

/// Action asking to hand off to `agent`.
pub fn request_handoff(agent: &str) -> (a: HandoffAction)
    ensures
        a matches HandoffAction::Request { agent: g } && g@ == agent@,
{
    HandoffAction::Request { agent: String::from_str(agent) }
}

/// Action activating `agent`.
pub fn activate_handoff(agent: &str) -> (a: HandoffAction)
    ensures
        a matches HandoffAction::Activate { agent: g } && g@ == agent@,
{
    HandoffAction::Activate { agent: String::from_str(agent) }
}

/// Action clearing the handoff state.
pub fn clear_handoff() -> (a: HandoffAction)
    ensures
        a == HandoffAction::Clear,
{
    HandoffAction::Clear
}

/// Per-agent overrides applied while that agent is active.
#[derive(Debug, Clone, Default)]
pub struct AgentOverlay {
    /// Replacement system prompt.
    pub system_prompt: Option<String>,
    /// Replacement model.
    pub model: Option<String>,
    /// Only these tools are offered.
    pub allowed_tools: Option<Vec<String>>,
    /// These tools are withheld.
    pub excluded_tools: Option<Vec<String>>,
}

impl AgentOverlay {
    /// An overlay that overrides nothing.
    pub fn new() -> (o: Self)
        ensures
            o.system_prompt is None,
            o.model is None,
            o.allowed_tools is None,
            o.excluded_tools is None,
    {
        AgentOverlay { system_prompt: None, model: None, allowed_tools: None, excluded_tools: None }
    }
}

/// State key of the handoff state.
pub struct ActiveAgentKey;

impl ActiveAgentKey {
    pub const KEY: &'static str = "agent_handoff";

    pub fn apply(value: &mut HandoffState, update: HandoffAction)
        ensures
            (opt_view(final(value).active_agent), opt_view(final(value).requested_agent))
                == handoff_reduce_spec(
                opt_view(old(value).active_agent),
                opt_view(old(value).requested_agent),
                update,
            ),
    {
        value.reduce(update);
    }
}

/// The handoff plugin: holds the overlay of each agent it can hand off to.
pub struct HandoffPlugin {
    overlays: StrMap<AgentOverlay>,
}

impl HandoffPlugin {
    /// The overlays by agent name.
    pub closed spec fn spec_overlays(&self) -> Map<Seq<char>, AgentOverlay> {
        self.overlays@
    }

    pub fn new(overlays: StrMap<AgentOverlay>) -> (p: Self)
        ensures
            p.spec_overlays() == overlays@,
    {
        HandoffPlugin { overlays }
    }

    pub fn descriptor(&self) -> (d: PluginDescriptor)
        ensures
            d.name@ == HANDOFF_PLUGIN_ID@,
    {
        PluginDescriptor { name: HANDOFF_PLUGIN_ID }
    }

    /// The overlay configured for `agent`, if any.
    pub fn overlay(&self, agent: &str) -> (r: Option<&AgentOverlay>)
        ensures
            match r {
                Some(o) => self.spec_overlays().contains_key(agent@) && *o
                    == self.spec_overlays()[agent@],
                None => !self.spec_overlays().contains_key(agent@),
            },
    {
        self.overlays.get(agent)
    }

    /// The agent the runtime should run: the requested one, else the active one.
    pub fn effective_agent(state: &HandoffState) -> (r: Option<&String>)
        ensures
            opt_view(
                match r {
                    Some(s) => Some(*s),
                    None => None,
                },
            ) == effective_agent_spec(opt_view(state.active_agent), opt_view(state.requested_agent)),
    {
        match &state.requested_agent {
            Some(r) => Some(r),
            None => state.active_agent.as_ref(),
        }
    }
}

/// What the run-start hook commits: an activation of the requested agent,
/// and a new value of the runtime's active-agent id.
pub struct HandoffSync {
    /// Activate this agent in the handoff state.
    pub activate: Option<String>,
    /// Set the runtime's active-agent id to this value.
    pub set_active_agent_id: Option<Option<String>>,
}

/// The run-start synchronisation: a pending request is activated (unless
/// already active) and becomes the runtime's active agent id (unless it
/// already is); without a request, the runtime's id follows the active agent.
pub open spec fn handoff_sync_spec(
    active: Option<Seq<char>>,
    requested: Option<Seq<char>>,
    current: Option<Seq<char>>,
) -> (Option<Seq<char>>, Option<Option<Seq<char>>>) {
    match requested {
        Some(r) => (
            if active == Some(r) {
                None
            } else {
                Some(r)
            },
            if current == Some(r) {
                None
            } else {
                Some(Some(r))
            },
        ),
        None => (None, if current == active {
            None
        } else {
            Some(active)
        }),
    }
}

fn opt_str_eq(a: &Option<String>, b: &str) -> (r: bool)
    ensures
        r == (opt_view(*a) == Some(b@)),
{
    match a {
        Some(s) => str_eq(s.as_str(), b),
        None => false,
    }
}

fn opt_eq(a: &Option<String>, b: &Option<String>) -> (r: bool)
    ensures
        r == (opt_view(*a) == opt_view(*b)),
{
    match (a, b) {
        (Some(x), Some(y)) => str_eq(x.as_str(), y.as_str()),
        (None, None) => true,
        _ => false,
    }
}

fn clone_opt(a: &Option<String>) -> (r: Option<String>)
    ensures
        opt_view(r) == opt_view(*a),
{
    match a {
        Some(s) => Some(String::from_str(s.as_str())),
        None => None,
    }
}

/// Decide what the run-start hook commits, given the handoff state and the
/// runtime's current active-agent id.
pub fn handoff_sync(state: &HandoffState, current_active: &Option<String>) -> (r: HandoffSync)
    ensures
        (opt_view(r.activate), match r.set_active_agent_id {
            Some(v) => Some(opt_view(v)),
            None => None,
        }) == handoff_sync_spec(
            opt_view(state.active_agent),
            opt_view(state.requested_agent),
            opt_view(*current_active),
        ),
{
    match &state.requested_agent {
        Some(requested) => {
            let activate = if opt_str_eq(&state.active_agent, requested.as_str()) {
                None
            } else {
                Some(String::from_str(requested.as_str()))
            };
            let set_active_agent_id = if opt_str_eq(current_active, requested.as_str()) {
                None
            } else {
                Some(Some(String::from_str(requested.as_str())))
            };
            HandoffSync { activate, set_active_agent_id }
        },
        None => {
            let set_active_agent_id = if opt_eq(current_active, &state.active_agent) {
                None
            } else {
                Some(clone_opt(&state.active_agent))
            };
            HandoffSync { activate: None, set_active_agent_id }
        },
    }
}

/// After the run-start hook's updates are applied, the runtime's active
/// agent id is the effective agent, and the effective agent is unchanged.
pub proof fn lemma_sync_settles(
    active: Option<Seq<char>>,
    requested: Option<Seq<char>>,
    current: Option<Seq<char>>,
)
    ensures
        ({
            let (activate, set_id) = handoff_sync_spec(active, requested, current);
            let new_active = match activate {
                Some(a) => Some(a),
                None => active,
            };
            let new_requested = match activate {
                Some(_) => None,
                None => requested,
            };
            let new_current = match set_id {
                Some(v) => v,
                None => current,
            };
            &&& new_current == effective_agent_spec(active, requested)
            &&& effective_agent_spec(new_active, new_requested) == effective_agent_spec(
                active,
                requested,
            )
        }),
{
}

} // verus!
