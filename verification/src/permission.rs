//! Tool-call permission decisions and their aggregation.

use vstd::prelude::*;

verus! {

/// Tool call permission decision.
///
/// Aggregation rule (every permission hook decides, then the decisions are aggregated):
/// 1. Any `Block` gives a final Block (highest priority, terminates the run)
/// 2. Any `Deny` gives a final Deny
/// 3. Any `Allow` (no Block/Deny) gives a final Allow
/// 4. All `Abstain` gives a final Suspend (no hook approved the call)
#[derive(Debug, Clone, PartialEq)]
pub enum ToolPermission {
    /// Explicitly allow the tool call.
    Allow,
    /// Deny the tool call with an optional custom message for the LLM.
    Deny { reason: String, message: Option<String> },
    /// Block the tool call and terminate the entire run.
    Block { reason: String },
    /// No opinion on this tool call.
    Abstain,
}

impl ToolPermission {
    pub fn is_allow(&self) -> (r: bool)
        ensures
            r == (*self is Allow),
    {
        matches!(self, ToolPermission::Allow)
    }

    pub fn is_deny(&self) -> (r: bool)
        ensures
            r == (*self is Deny),
    {
        matches!(self, ToolPermission::Deny { .. })
    }

    pub fn is_block(&self) -> (r: bool)
        ensures
            r == (*self is Block),
    {
        matches!(self, ToolPermission::Block { .. })
    }

    pub fn is_abstain(&self) -> (r: bool)
        ensures
            r == (*self is Abstain),
    {
        matches!(self, ToolPermission::Abstain)
    }
}

/// Aggregated result of all tool permission checks.
#[derive(Debug, Clone, PartialEq)]
pub enum ToolPermissionResult {
    /// Tool call is allowed.
    Allow,
    /// Tool call is denied; the LLM receives the custom `message` (or a generic one).
    Deny { reason: String, message: Option<String> },
    /// Tool call is blocked and the run is terminated.
    Block { reason: String },
    /// No hook allowed the call: the tool is suspended pending external approval.
    Suspend,
}

impl ToolPermissionResult {
    pub fn is_allow(&self) -> (r: bool)
        ensures
            r == (*self is Allow),
    {
        matches!(self, ToolPermissionResult::Allow)
    }

    pub fn is_deny(&self) -> (r: bool)
        ensures
            r == (*self is Deny),
    {
        matches!(self, ToolPermissionResult::Deny { .. })
    }

    pub fn is_block(&self) -> (r: bool)
        ensures
            r == (*self is Block),
    {
        matches!(self, ToolPermissionResult::Block { .. })
    }

    pub fn is_suspend(&self) -> (r: bool)
        ensures
            r == (*self is Suspend),
    {
        matches!(self, ToolPermissionResult::Suspend)
    }
}

/// The aggregate of a list of decisions, read from the front: the first
/// `Block` wins outright; otherwise the first `Deny`; otherwise `Allow` if any
/// hook allowed; otherwise `Suspend`.
pub open spec fn aggregate_spec(ds: Seq<ToolPermission>) -> ToolPermissionResult
    decreases ds.len(),
{
    if ds.len() == 0 {
        ToolPermissionResult::Suspend
    } else {
        let rest = aggregate_spec(ds.drop_first());
        match ds[0] {
            ToolPermission::Block { reason } => ToolPermissionResult::Block { reason },
            ToolPermission::Deny { reason, message } => match rest {
                ToolPermissionResult::Block { reason: r } => ToolPermissionResult::Block { reason: r },
                _ => ToolPermissionResult::Deny { reason, message },
            },
            ToolPermission::Allow => match rest {
                ToolPermissionResult::Suspend => ToolPermissionResult::Allow,
                other => other,
            },
            ToolPermission::Abstain => rest,
        }
    }
}

/// Some decision in `ds` is a `Block`.
pub open spec fn any_block(ds: Seq<ToolPermission>) -> bool {
    exists|i: int| 0 <= i < ds.len() && ds[i] is Block
}

/// Some decision in `ds` is a `Deny`.
pub open spec fn any_deny(ds: Seq<ToolPermission>) -> bool {
    exists|i: int| 0 <= i < ds.len() && ds[i] is Deny
}

/// Some decision in `ds` is an `Allow`.
pub open spec fn any_allow(ds: Seq<ToolPermission>) -> bool {
    exists|i: int| 0 <= i < ds.len() && ds[i] is Allow
}

/// The state the aggregation loop carries, combined with the aggregate of the
/// decisions not yet seen.
spec fn combine(
    has_allow: bool,
    first_deny: Option<(String, Option<String>)>,
    rest: ToolPermissionResult,
) -> ToolPermissionResult {
    match rest {
        ToolPermissionResult::Block { reason } => ToolPermissionResult::Block { reason },
        _ => match first_deny {
            Some((reason, message)) => ToolPermissionResult::Deny { reason, message },
            None => if has_allow {
                match rest {
                    ToolPermissionResult::Suspend => ToolPermissionResult::Allow,
                    other => other,
                }
            } else {
                rest
            },
        },
    }
}

/// The kind of the aggregate is decided by which kinds occur in the list:
/// Block if any Block; else Deny if any Deny; else Allow if any Allow; else Suspend.
/// A `Block` result carries the reason of the first `Block`, a `Deny` result
/// the reason and message of the first `Deny`.
pub proof fn lemma_aggregate_by_presence(ds: Seq<ToolPermission>)
    ensures
        (aggregate_spec(ds) is Block) == any_block(ds),
        (aggregate_spec(ds) is Deny) == (!any_block(ds) && any_deny(ds)),
        (aggregate_spec(ds) is Allow) == (!any_block(ds) && !any_deny(ds) && any_allow(ds)),
        (aggregate_spec(ds) is Suspend) == (!any_block(ds) && !any_deny(ds) && !any_allow(ds)),
    decreases ds.len(),
{
    if ds.len() > 0 {
        let tail = ds.drop_first();
        lemma_aggregate_by_presence(tail);
        assert forall|i: int| 0 <= i < tail.len() implies tail[i] == ds[i + 1] by {}
        if any_block(ds) && !(ds[0] is Block) {
            let i = choose|i: int| 0 <= i < ds.len() && ds[i] is Block;
            assert(tail[i - 1] is Block);
        }
        if any_deny(ds) && !(ds[0] is Deny) {
            let i = choose|i: int| 0 <= i < ds.len() && ds[i] is Deny;
            assert(tail[i - 1] is Deny);
        }
        if any_allow(ds) && !(ds[0] is Allow) {
            let i = choose|i: int| 0 <= i < ds.len() && ds[i] is Allow;
            assert(tail[i - 1] is Allow);
        }
        if any_block(tail) {
            let i = choose|i: int| 0 <= i < tail.len() && tail[i] is Block;
            assert(ds[i + 1] is Block);
        }
        if any_deny(tail) {
            let i = choose|i: int| 0 <= i < tail.len() && tail[i] is Deny;
            assert(ds[i + 1] is Deny);
        }
        if any_allow(tail) {
            let i = choose|i: int| 0 <= i < tail.len() && tail[i] is Allow;
            assert(ds[i + 1] is Allow);
        }
        assert(ds[0] is Block ==> any_block(ds));
        assert(ds[0] is Deny ==> any_deny(ds));
        assert(ds[0] is Allow ==> any_allow(ds));
    }
}

/// Aggregate individual tool permission decisions into a final result.
///
/// Priority: Block > Deny > Allow > Suspend (all Abstain).
pub fn aggregate_tool_permissions(decisions: &[ToolPermission]) -> (r: ToolPermissionResult)
    ensures
        r == aggregate_spec(decisions@),
        (r is Block) == any_block(decisions@),
        (r is Deny) == (!any_block(decisions@) && any_deny(decisions@)),
        (r is Allow) == (!any_block(decisions@) && !any_deny(decisions@) && any_allow(decisions@)),
        (r is Suspend) == (!any_block(decisions@) && !any_deny(decisions@) && !any_allow(
            decisions@,
        )),
{
    proof {
        lemma_aggregate_by_presence(decisions@);
    }
    let mut has_allow = false;
    let mut first_deny: Option<(String, Option<String>)> = None;
    let n = decisions.len();
    let mut i: usize = 0;
    assert(decisions@.subrange(0, n as int) =~= decisions@);
    while i < n
        invariant
            n == decisions@.len(),
            0 <= i <= n,
            aggregate_spec(decisions@) == combine(
                has_allow,
                first_deny,
                aggregate_spec(decisions@.subrange(i as int, n as int)),
            ),
        decreases n - i,
    {
        let ghost rest = decisions@.subrange(i as int, n as int);
        assert(rest[0] == decisions@[i as int]);
        assert(rest.drop_first() =~= decisions@.subrange(i + 1, n as int));
        match &decisions[i] {
            ToolPermission::Block { reason } => {
                return ToolPermissionResult::Block { reason: reason.clone() };
            },
            ToolPermission::Deny { reason, message } => {
                if first_deny.is_none() {
                    first_deny = Some((reason.clone(), message.clone()));
                }
            },
            ToolPermission::Allow => {
                has_allow = true;
            },
            ToolPermission::Abstain => {},
        }
        i = i + 1;
    }
    assert(decisions@.subrange(n as int, n as int) =~= Seq::<ToolPermission>::empty());
    match first_deny {
        Some((reason, message)) => ToolPermissionResult::Deny { reason, message },
        None => if has_allow {
            ToolPermissionResult::Allow
        } else {
            ToolPermissionResult::Suspend
        },
    }
}

} // verus!

verus! {

/// Default plugin that allows all tool calls.
///
/// Install this to get a permissive baseline. Remove or replace it to
/// require explicit approval for tool calls.
pub struct AllowAllToolsPlugin;

impl AllowAllToolsPlugin {
    pub fn descriptor(&self) -> (d: crate::plugin::PluginDescriptor)
        ensures
            d.name@ == "tool-permission:allow-all"@,
    {
        crate::plugin::PluginDescriptor { name: "tool-permission:allow-all" }
    }

    /// The permission hook this plugin registers: every call is allowed.
    pub fn check(&self) -> (p: ToolPermission)
        ensures
            p == ToolPermission::Allow,
    {
        ToolPermission::Allow
    }
}

} // verus!
