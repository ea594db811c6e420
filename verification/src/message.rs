//! Conversation messages as the context logic reads them.

use vstd::prelude::*;

verus! {

/// Who authored a message.
#[derive(Debug, Clone, Copy, PartialEq, Eq)]
pub enum Role {
    System,
    User,
    Assistant,
    Tool,
}

/// Whether a message is shown to the user or injected for the model only.
#[derive(Debug, Clone, Copy, PartialEq, Eq)]
pub enum Visibility {
    All,
    Internal,
}

/// A tool call requested by an assistant message.
#[derive(Debug, Clone, PartialEq, Eq)]
pub struct ToolCallRef {
    pub id: String,
    pub name: String,
}

/// A message of the conversation.
#[derive(Debug)]
pub struct Message {
    pub role: Role,
    pub visibility: Visibility,
    /// The message's text content.
    pub text: String,
    /// Tool calls of an assistant message, when it made any.
    pub tool_calls: Option<Vec<ToolCallRef>>,
    /// For a tool result, the call it answers.
    pub tool_call_id: Option<String>,
    /// The token estimate of the message.
    pub estimated_tokens: usize,
}

} // verus!
