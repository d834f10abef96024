//! A tool offered by an MCP server, as the agent describes it.

use crate::text::str_equal;
use vstd::prelude::*;
use vstd::string::*;

verus! {

/// The description of one MCP server tool: its name, description, the JSON
/// schema of its input as text, and whether calls wait for approval.
#[derive(Debug, Clone)]
pub struct McpTool {
    pub name: String,
    pub description: String,
    pub parameters: String,
    pub requires_confirmation: bool,
}

impl McpTool {
    /// Describes a server tool; only `delete_expense` waits for approval, and a
    /// missing description is empty.
    pub fn new(name: &str, description: Option<&str>, parameters: String) -> (t: Self)
        ensures
            t.name@ == name@,
            t.description@ == match description {
                Some(d) => d@,
                None => Seq::<char>::empty(),
            },
            t.parameters == parameters,
            t.requires_confirmation == (name@ == "delete_expense"@),
    {
        McpTool {
            name: String::from_str(name),
            description: match description {
                Some(d) => String::from_str(d),
                None => String::new(),
            },
            parameters,
            requires_confirmation: str_equal(name, "delete_expense"),
        }
    }

    /// The question put to the person; `{name}` and `{arguments}` stand for the
    /// tool and the call's arguments.
    pub fn confirmation_message_template(&self) -> (r: &'static str)
        ensures
            r@ == "即将调用费用工具 '{name}'，参数为 {arguments}。这是不可逆操作，是否继续？"@,
    {
        "即将调用费用工具 '{name}'，参数为 {arguments}。这是不可逆操作，是否继续？"
    }
}

} // verus!
