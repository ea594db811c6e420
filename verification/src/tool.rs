//! Tool descriptors: how a tool presents itself to the model.

use vstd::prelude::*;
use vstd::string::StringExecFns;

verus! {

/// Identity and description of a tool offered to the model.
#[derive(Debug, Clone, PartialEq, Eq)]
pub struct ToolDescriptor {
    pub id: String,
    pub name: String,
    pub description: String,
}

impl ToolDescriptor {
    pub fn new(id: &str, name: &str, description: &str) -> (d: Self)
        ensures
            d.id@ == id@,
            d.name@ == name@,
            d.description@ == description@,
    {
        ToolDescriptor {
            id: String::from_str(id),
            name: String::from_str(name),
            description: String::from_str(description),
        }
    }
}

} // verus!

verus! {

/// Error a tool reports for a call.
#[derive(Debug, Clone, PartialEq, Eq)]
pub enum ToolError {
    /// The arguments do not match what the tool accepts.
    InvalidArguments(String),
    /// The tool ran and failed.
    ExecutionFailed(String),
}

} // verus!
