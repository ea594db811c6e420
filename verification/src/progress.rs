//! Progress forwarding from a sub-agent run: of the events a delegated run
//! emits, only tool-call progress of the run's own (direct) tool calls
//! reaches the parent.

use vstd::prelude::*;

use crate::strmap::StrSet;
use crate::text::str_eq;

verus! {

/// Activity type of tool-call progress snapshots.
pub const TOOL_CALL_PROGRESS_ACTIVITY_TYPE: &'static str = "tool-call-progress";

/// An event of a sub-agent run, as far as forwarding reads it.
pub enum ChildEvent {
    /// The sub-agent started one of its own tool calls.
    ToolCallStart { id: String },
    /// An activity snapshot; `progress_call_id` is the call id its content
    /// names when the content is a tool-call progress state.
    ActivitySnapshot { activity_type: String, progress_call_id: Option<String> },
    /// Any other event.
    Other,
}

/// The set of started calls and whether the event is forwarded, after `ev`.
pub open spec fn filter_step(seen: Set<Seq<char>>, ev: ChildEvent) -> (Set<Seq<char>>, bool) {
    match ev {
        ChildEvent::ToolCallStart { id } => (seen.insert(id@), false),
        ChildEvent::ActivitySnapshot { activity_type, progress_call_id } => (
            seen,
            activity_type@ == TOOL_CALL_PROGRESS_ACTIVITY_TYPE@ && match progress_call_id {
                Some(c) => seen.contains(c@),
                None => false,
            },
        ),
        ChildEvent::Other => (seen, false),
    }
}

/// The calls started among `evs`.
pub open spec fn started_calls(evs: Seq<ChildEvent>) -> Set<Seq<char>>
    decreases evs.len(),
{
    if evs.len() == 0 {
        Set::empty()
    } else {
        let before = started_calls(evs.drop_last());
        match evs.last() {
            ChildEvent::ToolCallStart { id } => before.insert(id@),
            _ => before,
        }
    }
}

/// The set of started calls after a run of events from an empty set.
pub open spec fn seen_after(evs: Seq<ChildEvent>) -> Set<Seq<char>>
    decreases evs.len(),
{
    if evs.len() == 0 {
        Set::empty()
    } else {
        filter_step(seen_after(evs.drop_last()), evs.last()).0
    }
}

/// The filter of a sub-agent's events: it remembers the direct tool calls
/// it has seen start.
pub struct ProgressFilter {
    seen_child_calls: StrSet,
}

impl ProgressFilter {
    /// The ids of the direct tool calls seen so far.
    pub closed spec fn seen(&self) -> Set<Seq<char>> {
        self.seen_child_calls@
    }

    pub fn new() -> (f: Self)
        ensures
            f.seen() == Set::<Seq<char>>::empty(),
    {
        ProgressFilter { seen_child_calls: StrSet::new() }
    }

    /// Take in the next event; the result says whether it is forwarded to
    /// the parent.
    pub fn on_event(&mut self, event: &ChildEvent) -> (forward: bool)
        ensures
            (final(self).seen(), forward) == filter_step(old(self).seen(), *event),
    {
        match event {
            ChildEvent::ToolCallStart { id } => {
                self.seen_child_calls.insert(id.clone());
                false
            },
            ChildEvent::ActivitySnapshot { activity_type, progress_call_id } => {
                if !str_eq(activity_type.as_str(), TOOL_CALL_PROGRESS_ACTIVITY_TYPE) {
                    return false;
                }
                match progress_call_id {
                    Some(c) => self.seen_child_calls.contains(c.as_str()),
                    None => false,
                }
            },
            ChildEvent::Other => false,
        }
    }
}

/// Over any run of events from a fresh filter, the calls the filter
/// remembers are exactly the calls started in that run; so a progress
/// snapshot is forwarded exactly when its call was started earlier in the
/// run.
pub proof fn lemma_seen_is_started(evs: Seq<ChildEvent>)
    ensures
        seen_after(evs) == started_calls(evs),
    decreases evs.len(),
{
    if evs.len() > 0 {
        lemma_seen_is_started(evs.drop_last());
    }
}

} // verus!
