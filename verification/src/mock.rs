//! Mock LLM executor that returns canned responses without calling any API.

use vstd::prelude::*;
use vstd::string::StringExecFns;

verus! {

/// The reply of a mock executor that has no canned responses.
pub const MOCK_DEFAULT_RESPONSE: &'static str = "I'm a mock assistant. I'll help you test the system. What would you like to do?";

/// A mock LLM executor that returns canned responses without calling any
/// API: the canned responses in turn, cycling, or a default reply when it
/// has none. Used for testing and development.
pub struct MockLlmExecutor {
    responses: Vec<String>,
    default_response: String,
    index: usize,
}

impl MockLlmExecutor {
    /// The canned responses.
    pub closed spec fn spec_responses(&self) -> Seq<Seq<char>> {
        self.responses@.map_values(|s: String| s@)
    }

    /// The reply given when there are no canned responses.
    pub closed spec fn spec_default_response(&self) -> Seq<char> {
        self.default_response@
    }

    /// How many responses have been taken from the canned list.
    pub closed spec fn spec_index(&self) -> nat {
        self.index as nat
    }

    pub fn new() -> (r: Self)
        ensures
            r.spec_responses() == Seq::<Seq<char>>::empty(),
            r.spec_default_response() == MOCK_DEFAULT_RESPONSE@,
            r.spec_index() == 0,
    {
        let r = MockLlmExecutor {
            responses: Vec::new(),
            default_response: String::from_str(MOCK_DEFAULT_RESPONSE),
            index: 0,
        };
        assert(r.spec_responses() =~= Seq::<Seq<char>>::empty());
        r
    }

    pub fn with_responses(self, responses: Vec<String>) -> (r: Self)
        ensures
            r.spec_responses() == responses@.map_values(|s: String| s@),
            r.spec_default_response() == self.spec_default_response(),
            r.spec_index() == self.spec_index(),
    {
        MockLlmExecutor { responses, ..self }
    }

    /// The next reply: the default when there are no canned responses, else
    /// the canned response at the call count modulo their number; the call
    /// count wraps around at the machine limit.
    pub fn next_response(&mut self) -> (r: String)
        ensures
            r@ == mock_reply(
                old(self).spec_responses(),
                old(self).spec_default_response(),
                old(self).spec_index(),
            ),
            final(self).spec_index() == mock_next_index(
                old(self).spec_index(),
                old(self).spec_responses().len(),
            ),
            final(self).spec_responses() == old(self).spec_responses(),
            final(self).spec_default_response() == old(self).spec_default_response(),
    {
        if self.responses.len() == 0 {
            return self.default_response.clone();
        }
        let idx = self.index % self.responses.len();
        self.index = self.index.wrapping_add(1);
        self.responses[idx].clone()
    }

    /// The executor's name.
    pub fn name(&self) -> (r: &'static str)
        ensures
            r@ == "mock"@,
    {
        "mock"
    }
}

/// The reply at call count `index`: the default when there are no canned
/// responses, else the canned response at `index` modulo their number.
pub open spec fn mock_reply(responses: Seq<Seq<char>>, default: Seq<char>, index: nat) -> Seq<char> {
    if responses.len() == 0 {
        default
    } else {
        responses[(index % responses.len()) as int]
    }
}

/// The call count after one call, with `count` canned responses: unchanged
/// without responses, else one more, wrapping around at `usize::MAX`.
pub open spec fn mock_next_index(index: nat, count: nat) -> nat {
    if count == 0 {
        index
    } else if index == usize::MAX {
        0
    } else {
        index + 1
    }
}

/// The call count of a new executor with `count` canned responses after
/// `k` calls.
pub open spec fn mock_index_after(count: nat, k: nat) -> nat
    decreases k,
{
    if k == 0 {
        0
    } else {
        mock_next_index(mock_index_after(count, (k - 1) as nat), count)
    }
}

/// Replies cycle: on a new executor, call `k` (counting from 0) replies with
/// the default when there are no canned responses, else with the canned
/// response at `k` modulo their number, for every `k` the call count
/// reaches.
pub proof fn lemma_replies_cycle(responses: Seq<Seq<char>>, default: Seq<char>, k: nat)
    requires
        k <= usize::MAX,
    ensures
        mock_index_after(responses.len(), k) == (if responses.len() == 0 {
            0
        } else {
            k
        }),
        mock_reply(responses, default, mock_index_after(responses.len(), k)) == (if responses.len()
            == 0 {
            default
        } else {
            responses[(k % responses.len()) as int]
        }),
    decreases k,
{
    if k > 0 {
        lemma_replies_cycle(responses, default, (k - 1) as nat);
    }
}

impl Default for MockLlmExecutor {
    fn default() -> (r: Self)
        ensures
            r.spec_responses() == Seq::<Seq<char>>::empty(),
            r.spec_default_response() == MOCK_DEFAULT_RESPONSE@,
            r.spec_index() == 0,
    {
        Self::new()
    }
}

} // verus!
