//! What is remembered of one solved task.

use crate::text::{eq_ignore_ascii_case, eq_ignore_ascii_case_str};
use vstd::prelude::*;
use vstd::string::*;

verus! {

/// A learning record extracted from one execution.
#[derive(Debug, Clone)]
pub struct TaskMemory {
    pub task_summary: String,
    pub approach: String,
    pub final_answer: String,
    pub is_correct: bool,
    pub error_analysis: Option<String>,
}

impl TaskMemory {
    /// The text embedded for similarity search: the task summary.
    pub fn to_embedding_text(&self) -> (r: String)
        ensures
            r@ == "Task: "@ + self.task_summary@,
    {
        let mut t = String::from_str("Task: ");
        t.append(self.task_summary.as_str());
        t
    }
}

/// The model's verdict on whether a new memory repeats a stored one.
#[derive(Debug, Clone)]
pub struct DuplicateCheckResult {
    pub decision: String,
    pub reason: String,
}

impl DuplicateCheckResult {
    /// A memory is a duplicate when the decision is `SKIP`, in any ASCII case.
    pub fn is_duplicate(&self) -> (r: bool)
        ensures
            r == eq_ignore_ascii_case(self.decision@, "SKIP"@),
    {
        eq_ignore_ascii_case_str(self.decision.as_str(), "SKIP")
    }
}

} // verus!
