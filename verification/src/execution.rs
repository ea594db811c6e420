//! Tool execution strategies: the decisions of the sequential and parallel
//! executors. Running the tools themselves is asynchronous work done by the
//! caller, one call at a time, as these decisions direct.

use vstd::prelude::*;
use vstd::string::StringExecFns;

verus! {

/// How a single tool call ended.
#[derive(Debug, Clone, Copy, PartialEq, Eq)]
pub enum ToolCallOutcome {
    /// The tool ran and succeeded.
    Succeeded,
    /// The tool could not be found, rejected its arguments, or failed.
    Failed,
    /// The tool is waiting for an external decision.
    Suspended,
}

/// Error from a tool execution strategy.
#[derive(Debug, Clone, PartialEq, Eq)]
pub enum ToolExecutorError {
    /// Execution was cancelled.
    Cancelled,
    /// Execution failed.
    Failed(String),
}

impl ToolExecutorError {
    /// The error's message.
    pub fn message(&self) -> (r: String)
        ensures
            r@ == match self {
                ToolExecutorError::Cancelled => "tool execution cancelled"@,
                ToolExecutorError::Failed(m) => "tool execution failed: "@ + m@,
            },
    {
        match self {
            ToolExecutorError::Cancelled => String::from_str("tool execution cancelled"),
            ToolExecutorError::Failed(m) => {
                let mut out = String::from_str("tool execution failed: ");
                out.append(m.as_str());
                out
            },
        }
    }
}

/// The error message of a call to a tool that is not registered.
pub fn tool_not_found_message(name: &str) -> (r: String)
    ensures
        r@ == "tool '"@ + name@ + "' not found"@,
{
    let mut out = String::from_str("tool '");
    out.append(name);
    out.append("' not found");
    out
}

/// Where a sequential run stands: it is over once every call has run or a
/// call has been suspended.
pub open spec fn sequential_done(total: nat, outcomes: Seq<ToolCallOutcome>) -> bool {
    outcomes.len() >= total || (outcomes.len() > 0 && outcomes.last() == ToolCallOutcome::Suspended)
}

/// Execute tool calls one by one in call order; stop at the first
/// suspension. Failures do not stop the run.
#[derive(Debug, Clone, Copy, Default)]
pub struct SequentialToolExecutor;

impl SequentialToolExecutor {
    /// Strategy name for logging.
    pub fn name(&self) -> (r: &'static str)
        ensures
            r@ == "sequential"@,
    {
        "sequential"
    }

    /// Sequential execution needs state refreshed between calls.
    pub fn requires_incremental_state(&self) -> (r: bool)
        ensures
            r,
    {
        true
    }

    /// The index of the next call to run, given the outcomes of the calls run
    /// so far (in call order), or `None` when the run is over.
    pub fn next_call(&self, total: usize, outcomes: &[ToolCallOutcome]) -> (r: Option<usize>)
        ensures
            r is None <==> sequential_done(total as nat, outcomes@),
            r matches Some(i) ==> i == outcomes@.len(),
    {
        let n = outcomes.len();
        if n >= total {
            None
        } else if n > 0 && matches!(outcomes[n - 1], ToolCallOutcome::Suspended) {
            None
        } else {
            Some(n)
        }
    }
}

/// A sequential run driven by [`SequentialToolExecutor::next_call`] never
/// runs a call after a suspension: while the run goes on, no outcome so far
/// is a suspension (given that every earlier step also went on).
pub proof fn lemma_sequential_stops_at_suspension(total: nat, outcomes: Seq<ToolCallOutcome>)
    requires
        forall|k: int|
            0 <= k <= outcomes.len() ==> (k == outcomes.len() || !sequential_done(
                total,
                #[trigger] outcomes.take(k),
            )),
    ensures
        forall|k: int| 0 <= k < outcomes.len() - 1 ==> outcomes[k] != ToolCallOutcome::Suspended,
        outcomes.len() <= total,
{
    assert forall|k: int| 0 <= k < outcomes.len() - 1 implies outcomes[k]
        != ToolCallOutcome::Suspended by {
        assert(!sequential_done(total, outcomes.take(k + 1)));
        assert(outcomes.take(k + 1).last() == outcomes[k]);
    }
    if outcomes.len() > 0 {
        assert(!sequential_done(total, outcomes.take(outcomes.len() - 1)));
    }
}

/// Policy controlling when resume decisions are replayed into tool execution.
#[derive(Debug, Clone, Copy, PartialEq, Eq)]
pub enum DecisionReplayPolicy {
    /// Replay each resolved suspended call as soon as its decision arrives.
    Immediate,
    /// Replay only when all currently suspended calls have decisions.
    BatchAllSuspended,
}

/// Parallel execution mode.
#[derive(Debug, Clone, Copy, PartialEq, Eq)]
pub enum ParallelMode {
    /// All concurrently, batch approval gate: wait for all decisions.
    BatchApproval,
    /// All concurrently, streaming results: replay decisions immediately.
    Streaming,
}

/// Execute all tool calls concurrently; all tools see the same frozen
/// snapshot, and every call runs whatever the others return.
#[derive(Debug, Clone, Copy)]
pub struct ParallelToolExecutor {
    mode: ParallelMode,
}

impl ParallelToolExecutor {
    /// The mode this executor runs in.
    pub closed spec fn spec_mode(&self) -> ParallelMode {
        self.mode
    }

    pub fn batch_approval() -> (r: Self)
        ensures
            r.spec_mode() == ParallelMode::BatchApproval,
    {
        ParallelToolExecutor { mode: ParallelMode::BatchApproval }
    }

    pub fn streaming() -> (r: Self)
        ensures
            r.spec_mode() == ParallelMode::Streaming,
    {
        ParallelToolExecutor { mode: ParallelMode::Streaming }
    }

    /// How the runtime should replay resolved suspend decisions.
    pub fn decision_replay_policy(&self) -> (r: DecisionReplayPolicy)
        ensures
            r == match self.spec_mode() {
                ParallelMode::BatchApproval => DecisionReplayPolicy::BatchAllSuspended,
                ParallelMode::Streaming => DecisionReplayPolicy::Immediate,
            },
    {
        match self.mode {
            ParallelMode::BatchApproval => DecisionReplayPolicy::BatchAllSuspended,
            ParallelMode::Streaming => DecisionReplayPolicy::Immediate,
        }
    }

    /// Whether the runtime should enforce parallel patch conflict checks.
    pub fn requires_conflict_check(&self) -> (r: bool)
        ensures
            r,
    {
        true
    }

    /// Strategy name for logging.
    pub fn name(&self) -> (r: &'static str)
        ensures
            r@ == match self.spec_mode() {
                ParallelMode::BatchApproval => "parallel_batch_approval"@,
                ParallelMode::Streaming => "parallel_streaming"@,
            },
    {
        match self.mode {
            ParallelMode::BatchApproval => "parallel_batch_approval",
            ParallelMode::Streaming => "parallel_streaming",
        }
    }

    /// Parallel execution does not refresh state between calls.
    pub fn requires_incremental_state(&self) -> (r: bool)
        ensures
            !r,
    {
        false
    }
}

impl Default for ParallelToolExecutor {
    fn default() -> (r: Self)
        ensures
            r.spec_mode() == ParallelMode::Streaming,
    {
        Self::streaming()
    }
}

} // verus!
