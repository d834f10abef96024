//! The file deletion tool: irreversible, so it always asks for approval.

use vstd::prelude::*;
use vstd::string::*;

verus! {

/// The arguments of the deletion tool.
#[derive(Debug, Clone)]
pub struct DeleteFileArgs {
    pub file_path: String,
}

/// Deletes a file after a person approves.
pub struct DeleteFileTool;

impl DeleteFileTool {
    /// The tool's name.
    pub fn name(&self) -> (r: &'static str)
        ensures
            r@ == "delete_file"@,
    {
        "delete_file"
    }

    /// The tool's description for the model.
    pub fn description(&self) -> (r: &'static str)
        ensures
            r@ == "Deletes a file. This action cannot be undone."@,
    {
        "Deletes a file. This action cannot be undone."
    }

    /// Deletion is never run without approval.
    pub fn requires_confirmation(&self) -> (r: bool)
        ensures
            r,
    {
        true
    }

    /// The question put to the person; `{arguments}` stands for the call's arguments.
    pub fn confirmation_message_template(&self) -> (r: &'static str)
        ensures
            r@ == "即将执行不可逆的文件删除操作：{arguments}，是否批准？"@,
    {
        "即将执行不可逆的文件删除操作：{arguments}，是否批准？"
    }

    /// The tool's output after the file at `file_path` was removed.
    pub fn deleted_message(file_path: &str) -> (r: String)
        ensures
            r@ == "File "@ + file_path@ + " has been deleted."@,
    {
        let mut m = String::from_str("File ");
        m.append(file_path);
        m.append(" has been deleted.");
        m
    }

    /// The error when removing the file at `file_path` failed with `reason`.
    pub fn failure_message(file_path: &str, reason: &str) -> (r: String)
        ensures
            r@ == "Failed to delete "@ + file_path@ + ": "@ + reason@,
    {
        let mut m = String::from_str("Failed to delete ");
        m.append(file_path);
        m.append(": ");
        m.append(reason);
        m
    }
}

} // verus!
