//! The text the memory pipeline builds around model calls.

use crate::agent::event::{event_views, ContentItem, Event};
use crate::agent::runtime::flatten_contents;
use crate::memory::prompt::{DUPLICATE_CHECK_PROMPT, TASK_MEMORY_EXTRACTION_PROMPT};
use crate::memory::task_memory::{DuplicateCheckResult, TaskMemory};
use crate::text::{char_prefix, join, join_strings, replace_all, replace_all_string, take_chars, views};
use vstd::prelude::*;
use vstd::string::*;

verus! {

/// The models the memory pipeline uses: one to extract and compare memories,
/// one to embed them.
pub struct TaskMemoryManager {
    pub chat_model: String,
    pub embedding_model: String,
}

/// One line of the execution history given to the extractor.
pub open spec fn execution_line(item: ContentItem) -> Seq<char> {
    match item {
        ContentItem::Message { role, content } => "["@ + role@ + "]: "@ + content@,
        ContentItem::ToolCall(c) => "[Tool Call]: "@ + c.name@ + "("@ + c.arguments@ + ")"@,
        ContentItem::ToolResult { name, content, .. } => "[Tool Result]: "@ + name@ + " -> "@
            + char_prefix(content@, 500),
    }
}

/// The execution history of `events`: one line per content item.
pub open spec fn execution_history(events: Seq<Event>) -> Seq<char> {
    join(
        flatten_contents(event_views(events)).map_values(|item: ContentItem| execution_line(item)),
        "\n"@,
    )
}

/// `true` or `false`, as `{}` writes a `bool`.
pub open spec fn bool_text(b: bool) -> Seq<char> {
    if b {
        "true"@
    } else {
        "false"@
    }
}

/// How a memory is described to the duplicate check.
pub open spec fn memory_line(m: TaskMemory) -> Seq<char> {
    "task_summary: "@ + m.task_summary@ + ", approach: "@ + m.approach@ + ", is_correct: "@
        + bool_text(m.is_correct)
}

fn execution_line_string(item: &ContentItem) -> (r: String)
    ensures
        r@ == execution_line(*item),
{
    match item {
        ContentItem::Message { role, content } => {
            let mut s = String::from_str("[");
            s.append(role.as_str());
            s.append("]: ");
            s.append(content.as_str());
            s
        },
        ContentItem::ToolCall(c) => {
            let mut s = String::from_str("[Tool Call]: ");
            s.append(c.name.as_str());
            s.append("(");
            s.append(c.arguments.as_str());
            s.append(")");
            s
        },
        ContentItem::ToolResult { name, content, .. } => {
            let mut s = String::from_str("[Tool Result]: ");
            s.append(name.as_str());
            s.append(" -> ");
            let preview = take_chars(content.as_str(), 500);
            s.append(preview.as_str());
            s
        },
    }
}

fn bool_string(b: bool) -> (r: String)
    ensures
        r@ == bool_text(b),
{
    if b {
        String::from_str("true")
    } else {
        String::from_str("false")
    }
}

fn memory_line_string(m: &TaskMemory) -> (r: String)
    ensures
        r@ == memory_line(*m),
{
    let mut s = String::from_str("task_summary: ");
    s.append(m.task_summary.as_str());
    s.append(", approach: ");
    s.append(m.approach.as_str());
    s.append(", is_correct: ");
    let b = bool_string(m.is_correct);
    s.append(b.as_str());
    s
}

impl TaskMemoryManager {
    /// The models to use.
    pub fn new(chat_model: &str, embedding_model: &str) -> (m: Self)
        ensures
            m.chat_model@ == chat_model@,
            m.embedding_model@ == embedding_model@,
    {
        TaskMemoryManager {
            chat_model: String::from_str(chat_model),
            embedding_model: String::from_str(embedding_model),
        }
    }

    /// Renders every content item of the events as one line: messages with
    /// their role, tool calls with their argument text, tool results with the
    /// first 500 characters of their output.
    pub fn format_execution_history(events: &Vec<Event>) -> (r: String)
        ensures
            r@ == execution_history(events@),
    {
        let mut lines: Vec<String> = Vec::new();
        let mut i: usize = 0;
        while i < events.len()
            invariant
                i <= events@.len(),
                views(lines@) == flatten_contents(event_views(events@).take(i as int)).map_values(
                    |item: ContentItem| execution_line(item),
                ),
            decreases events.len() - i,
        {
            let items = &events[i].content;
            let ghost before = views(lines@);
            let mut j: usize = 0;
            while j < items.len()
                invariant
                    j <= items@.len(),
                    views(lines@) == before + items@.take(j as int).map_values(
                        |item: ContentItem| execution_line(item),
                    ),
                decreases items.len() - j,
            {
                let ghost prev = views(lines@);
                lines.push(execution_line_string(&items[j]));
                proof {
                    assert(views(lines@) =~= prev.push(execution_line(items@[j as int])));
                    assert(items@.take(j + 1).map_values(|item: ContentItem| execution_line(item))
                        =~= items@.take(j as int).map_values(|item: ContentItem| execution_line(item)).push(
                        execution_line(items@[j as int]),
                    ));
                }
                j = j + 1;
            }
            proof {
                assert(items@.take(j as int) =~= items@);
                assert(event_views(events@).take(i + 1).drop_last() =~= event_views(events@).take(
                    i as int,
                ));
                let f = |item: ContentItem| execution_line(item);
                let a = flatten_contents(event_views(events@).take(i as int));
                assert((a + items@).map_values(f) =~= a.map_values(f) + items@.map_values(f));
            }
            i = i + 1;
        }
        proof {
            assert(event_views(events@).take(i as int) =~= event_views(events@));
        }
        join_strings(&lines, "\n")
    }

    /// The prompt that asks for a memory of `execution_history`.
    pub fn extraction_prompt(execution_history: &str) -> (r: String)
        ensures
            r@ == replace_all(
                TASK_MEMORY_EXTRACTION_PROMPT@,
                "{execution_history}"@,
                execution_history@,
            ),
    {
        proof {
            reveal_strlit("{execution_history}");
        }
        replace_all_string(TASK_MEMORY_EXTRACTION_PROMPT, "{execution_history}", execution_history)
    }

    /// The prompt that asks whether `new_memory` repeats the `existing` ones:
    /// each memory is described on one line, the existing ones joined by new
    /// lines, and the two placeholders filled in that order.
    pub fn duplicate_check_prompt(new_memory: &TaskMemory, existing: &Vec<TaskMemory>) -> (r: String)
        ensures
            r@ == replace_all(
                replace_all(
                    DUPLICATE_CHECK_PROMPT@,
                    "{existing_memories}"@,
                    join(existing@.map_values(|m: TaskMemory| memory_line(m)), "\n"@),
                ),
                "{new_memory}"@,
                memory_line(*new_memory),
            ),
    {
        let mut lines: Vec<String> = Vec::new();
        let mut i: usize = 0;
        while i < existing.len()
            invariant
                i <= existing@.len(),
                views(lines@) == existing@.take(i as int).map_values(|m: TaskMemory| memory_line(m)),
            decreases existing.len() - i,
        {
            let ghost prev = views(lines@);
            lines.push(memory_line_string(&existing[i]));
            proof {
                assert(views(lines@) =~= prev.push(memory_line(existing@[i as int])));
                assert(existing@.take(i + 1).map_values(|m: TaskMemory| memory_line(m)) =~= existing@.take(
                    i as int,
                ).map_values(|m: TaskMemory| memory_line(m)).push(memory_line(existing@[i as int])));
            }
            i = i + 1;
        }
        proof {
            assert(existing@.take(i as int) =~= existing@);
            reveal_strlit("{existing_memories}");
            reveal_strlit("{new_memory}");
        }
        let joined = join_strings(&lines, "\n");
        let first = replace_all_string(DUPLICATE_CHECK_PROMPT, "{existing_memories}", joined.as_str());
        let new_text = memory_line_string(new_memory);
        replace_all_string(first.as_str(), "{new_memory}", new_text.as_str())
    }

    /// Whether the new memory is a duplicate: only when the check answered and
    /// its decision says so; a failed check counts as not a duplicate.
    pub fn duplicate_verdict(check: Option<DuplicateCheckResult>) -> (r: bool)
        ensures
            r == match check {
                Some(c) => crate::text::eq_ignore_ascii_case(c.decision@, "SKIP"@),
                None => false,
            },
    {
        match check {
            Some(c) => c.is_duplicate(),
            None => false,
        }
    }

    /// Whether a new memory is stored: when no similar memory exists, or the
    /// duplicate check did not call it a duplicate.
    pub fn should_store(similar_count: usize, is_duplicate: bool) -> (r: bool)
        ensures
            r == (similar_count == 0 || !is_duplicate),
    {
        similar_count == 0 || !is_duplicate
    }
}

} // verus!
