pub mod calculator;
pub mod file_delete;
pub mod file_list;
pub mod file_read;
pub mod mcp;
pub mod recall_memory;
pub mod web_search;

use vstd::prelude::*;

verus! {

/// A function tool as it is offered to the model: its name, description and
/// the JSON schema of its parameters as text.
#[derive(Debug, Clone)]
pub struct ToolDefinition {
    pub name: String,
    pub description: String,
    pub parameters: String,
}

} // verus!
