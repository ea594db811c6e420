//! Verified core of the awaken agent runtime: reducers, policies and
//! decision procedures that the asynchronous runtime drives.

pub mod permission;
pub mod text;
pub mod strmap;
pub mod plugin;
pub mod prompt_segments;
pub mod tool;
pub mod loop_actions;
pub mod json;
pub mod a2ui;
pub mod a2a;
pub mod agent_tools;
pub mod inference;
pub mod retry;
pub mod circuit_breaker;
pub mod background;
pub mod message;
pub mod context;
pub mod execution;
pub mod mock;
pub mod handoff;
pub mod context_messages;
pub mod stream;
pub mod delegate;
pub mod recovery;
pub mod progress;
