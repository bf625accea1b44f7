//! Plain record types a graphical host shows: stored-conversation
//! summaries and tool schemas for a picker. The storage and the interface
//! live with the host.

use vstd::prelude::*;

verus! {

/// One stored conversation, as a list entry.
#[derive(Debug, Clone)]
pub struct ConversationSummary {
    pub id: String,
    pub title: String,
    pub last_message: Option<String>,
    pub updated_at: String,
    pub message_count: usize,
}

/// One tool, with its parameters, for a tool picker.
#[derive(Debug, Clone)]
pub struct ToolInfo {
    pub name: String,
    pub description: String,
    pub parameters: Vec<ToolParameter>,
}

/// One parameter of a tool.
#[derive(Debug, Clone)]
pub struct ToolParameter {
    pub name: String,
    pub description: String,
    pub required: bool,
    pub param_type: String,
}

} // verus!
