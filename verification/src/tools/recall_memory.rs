//! The tool that lets the model look up past task records.

use crate::memory::task_memory::TaskMemory;
use crate::text::{decimal, decimal_string, join, join_strings, views};
use vstd::prelude::*;
use vstd::string::*;

verus! {

/// Searches past task records for similar problems.
pub struct RecallMemoryTool;

/// How one record is shown; `number` counts from 1.
pub open spec fn memory_block(number: nat, m: TaskMemory) -> Seq<char> {
    let status = if m.is_correct {
        "正确"@
    } else {
        "错误"@
    };
    let body = "[记录 "@ + decimal(number) + "]\n- 问题: "@ + m.task_summary@ + "\n- 方法: "@ + m.approach@
        + "\n- 答案: "@ + m.final_answer@ + "\n- 结果: "@ + status;
    match m.error_analysis {
        Some(a) => if !m.is_correct {
            body + "\n- 错误分析: "@ + a@
        } else {
            body
        },
        None => body,
    }
}

/// The records shown one after another, separated by a blank line.
pub open spec fn memories_text(memories: Seq<TaskMemory>) -> Seq<char> {
    join(Seq::new(memories.len(), |i: int| memory_block((i + 1) as nat, memories[i])), "\n\n"@)
}

fn memory_block_string(number: usize, m: &TaskMemory) -> (r: String)
    ensures
        r@ == memory_block(number as nat, *m),
{
    let mut t = String::from_str("[记录 ");
    let n = decimal_string(number);
    t.append(n.as_str());
    t.append("]\n- 问题: ");
    t.append(m.task_summary.as_str());
    t.append("\n- 方法: ");
    t.append(m.approach.as_str());
    t.append("\n- 答案: ");
    t.append(m.final_answer.as_str());
    t.append("\n- 结果: ");
    if m.is_correct {
        t.append("正确");
    } else {
        t.append("错误");
    }
    if !m.is_correct {
        match &m.error_analysis {
            Some(a) => {
                t.append("\n- 错误分析: ");
                t.append(a.as_str());
            },
            None => {},
        }
    }
    t
}

impl RecallMemoryTool {
    /// The tool's name.
    pub fn name(&self) -> (r: &'static str)
        ensures
            r@ == "recall_memory"@,
    {
        "recall_memory"
    }

    /// The tool's description for the model.
    pub fn description(&self) -> (r: &'static str)
        ensures
            r@ == "搜索过往的解题记录，用于检查是否遇到过类似的问题"@,
    {
        "搜索过往的解题记录，用于检查是否遇到过类似的问题"
    }

    /// The JSON schema of the tool's parameters: one required string `query`.
    pub fn parameters(&self) -> (r: &'static str)
        ensures
            r@ == "{\"type\":\"object\",\"properties\":{\"query\":{\"type\":\"string\",\"description\":\"要搜索的问题描述\"}},\"required\":[\"query\"]}"@,
    {
        "{\"type\":\"object\",\"properties\":{\"query\":{\"type\":\"string\",\"description\":\"要搜索的问题描述\"}},\"required\":[\"query\"]}"
    }

    /// Numbers the records from 1 and shows each one's problem, method,
    /// answer and outcome, with the error analysis of a failed attempt.
    pub fn format_memories(memories: &Vec<TaskMemory>) -> (r: String)
        ensures
            r@ == memories_text(memories@),
    {
        let mut blocks: Vec<String> = Vec::new();
        let mut i: usize = 0;
        while i < memories.len()
            invariant
                i <= memories@.len(),
                blocks@.len() == i,
                forall|k: int|
                    0 <= k < i ==> (#[trigger] blocks@[k])@ == memory_block((k + 1) as nat, memories@[k]),
            decreases memories.len() - i,
        {
            blocks.push(memory_block_string(i + 1, &memories[i]));
            i = i + 1;
        }
        proof {
            assert(views(blocks@) =~= Seq::new(
                memories@.len(),
                |k: int| memory_block((k + 1) as nat, memories@[k]),
            ));
        }
        join_strings(&blocks, "\n\n")
    }
}

} // verus!
