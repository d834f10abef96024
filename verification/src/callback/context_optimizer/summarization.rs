//! Summarization: older progress is folded into a running summary that is
//! sent as an instruction, and the summarized items are dropped.

use crate::agent::event::ContentItem;
use crate::agent::llm_request::LlmRequest;
use crate::callback::context_optimizer::{
    find_safe_start, first_user_index, first_user_message, law_safe_start_pairs_results, remove_range,
    safe_start, without_range,
};
use crate::session::model::State;
use crate::text::{char_prefix, join, join_strings, replace_all, replace_all_string, take_chars, views};
use vstd::prelude::*;
use vstd::string::*;

verus! {

/// The prompt that asks the model for a summary; `{history}` is replaced by
/// the formatted items.
pub const SUMMARIZATION_PROMPT: &'static str = "You are summarizing an AI agent's work-in-progress history. Given the execution history below, write a short, structured summary covering: 1) key findings so far, 2) tools that were called, 3) what remains to be done. Be concise \u{2014} a few sentences is enough.\n\nExecution history:\n{history}";

/// Folds older progress into a summary, keeping the last `keep_recent` items.
pub struct Summarization {
    pub model: String,
    pub keep_recent: usize,
}

/// What a summary pass will cover, computed before the model is asked.
#[derive(Debug)]
pub struct SummaryPlan {
    /// Position of the first user message, which is always kept.
    pub user_idx: usize,
    /// First item to summarize.
    pub summary_start: usize,
    /// End (exclusive) of the items to summarize, and start of the kept tail.
    pub summary_end: usize,
    /// The items to summarize, formatted for the prompt.
    pub history: String,
}

/// One line of the history shown to the summarizer.
pub open spec fn history_line(item: ContentItem) -> Seq<char> {
    match item {
        ContentItem::Message { role, content } => "["@ + role@ + "]: "@ + char_prefix(content@, 500),
        ContentItem::ToolCall(c) => "[tool call]: "@ + c.name@ + "("@ + c.arguments@ + ")"@,
        ContentItem::ToolResult { name, content, .. } => "[tool result]: "@ + name@ + " -> "@
            + char_prefix(content@, 200),
    }
}

/// The history text for `items`: one line per item.
pub open spec fn history_text(items: Seq<ContentItem>) -> Seq<char> {
    join(items.map_values(|item: ContentItem| history_line(item)), "\n"@)
}

/// The summary after adding `chunk` to the `previous` one.
pub open spec fn combined_summary(previous: Option<Seq<char>>, chunk: Seq<char>) -> Seq<char> {
    match previous {
        Some(prev) => prev + "\n\n"@ + chunk,
        None => chunk,
    }
}

/// The position after which summarizing starts: after the last summarized
/// item, or after the first user message when nothing was summarized yet.
pub open spec fn summary_start_of(last_summary_idx: Option<u64>, user_idx: int) -> int {
    match last_summary_idx {
        Some(v) => (v as usize) + 1,
        None => user_idx + 1,
    }
}

fn history_line_string(item: &ContentItem) -> (r: String)
    ensures
        r@ == history_line(*item),
{
    match item {
        ContentItem::Message { role, content } => {
            let mut s = String::from_str("[");
            s.append(role.as_str());
            s.append("]: ");
            let preview = take_chars(content.as_str(), 500);
            s.append(preview.as_str());
            s
        },
        ContentItem::ToolCall(c) => {
            let mut s = String::from_str("[tool call]: ");
            s.append(c.name.as_str());
            s.append("(");
            s.append(c.arguments.as_str());
            s.append(")");
            s
        },
        ContentItem::ToolResult { name, content, .. } => {
            let mut s = String::from_str("[tool result]: ");
            s.append(name.as_str());
            s.append(" -> ");
            let preview = take_chars(content.as_str(), 200);
            s.append(preview.as_str());
            s
        },
    }
}

/// The history text for the items at positions `lo..hi`.
pub fn format_history(items: &Vec<ContentItem>, lo: usize, hi: usize) -> (r: String)
    requires
        lo <= hi <= items@.len(),
    ensures
        r@ == history_text(items@.subrange(lo as int, hi as int)),
{
    let mut lines: Vec<String> = Vec::new();
    let mut i = lo;
    while i < hi
        invariant
            lo <= i <= hi <= items@.len(),
            lines@.len() == i - lo,
            forall|k: int|
                0 <= k < lines@.len() ==> (#[trigger] lines@[k])@ == history_line(items@[lo + k]),
        decreases hi - i,
    {
        lines.push(history_line_string(&items[i]));
        i = i + 1;
    }
    proof {
        assert(views(lines@) =~= items@.subrange(lo as int, hi as int).map_values(
            |item: ContentItem| history_line(item),
        ));
    }
    join_strings(&lines, "\n")
}

/// The prompt for summarizing `history`.
pub fn summarization_prompt(history: &str) -> (r: String)
    ensures
        r@ == replace_all(SUMMARIZATION_PROMPT@, "{history}"@, history@),
{
    proof {
        reveal_strlit("{history}");
    }
    replace_all_string(SUMMARIZATION_PROMPT, "{history}", history)
}

impl Summarization {
    /// Decides what to summarize. Nothing is done when the request holds no more
    /// than `keep_recent` items or no user message, or when the items between
    /// the last summary (or the first user message) and the safe start of the
    /// kept tail are none.
    pub fn plan(&self, state: &State, request: &LlmRequest) -> (r: Option<SummaryPlan>)
        requires
            request.contents@.len() > self.keep_recent && first_user_index(request.contents@) is Some
                && state.last_summary_idx is Some ==> (state.last_summary_idx->0 as usize)
                < usize::MAX,
        ensures
            ({
                let c = request.contents@;
                if c.len() <= self.keep_recent || first_user_index(c) is None {
                    r is None
                } else {
                    let u = first_user_index(c)->0;
                    let start = summary_start_of(state.last_summary_idx, u);
                    let end = safe_start(c, c.len() - self.keep_recent);
                    if end <= start {
                        r is None
                    } else {
                        r matches Some(p) && p.user_idx == u && p.summary_start == start
                            && p.summary_end == end && p.history@ == history_text(
                            c.subrange(start, end),
                        )
                    }
                }
            }),
    {
        let len = request.contents.len();
        if len <= self.keep_recent {
            return None;
        }
        let user_idx = match first_user_message(&request.contents) {
            Some(i) => i,
            None => {
                return None;
            },
        };
        let last = match state.last_summary_idx {
            Some(v) => v as usize,
            None => user_idx,
        };
        let summary_start = last + 1;
        let summary_end = find_safe_start(&request.contents, len - self.keep_recent);
        if summary_end <= summary_start {
            return None;
        }
        let history = format_history(&request.contents, summary_start, summary_end);
        Some(SummaryPlan { user_idx, summary_start, summary_end, history })
    }

    /// Applies a summary the model wrote for `plan`: the running summary grows
    /// by `new_summary_chunk`, is sent as an instruction, the summarized items
    /// after the first user message are dropped, and the state records how far
    /// the summary reaches.
    pub fn finish(
        &self,
        state: &mut State,
        request: &mut LlmRequest,
        plan: &SummaryPlan,
        new_summary_chunk: &str,
    )
        requires
            plan.user_idx < plan.summary_end <= old(request).contents@.len(),
        ensures
            ({
                let full = combined_summary(old(state)@.context_summary, new_summary_chunk@);
                &&& final(request).instructions@.len() == old(request).instructions@.len() + 1
                &&& final(request).instructions@.take(old(request).instructions@.len() as int)
                    == old(request).instructions@
                &&& final(request).instructions@.last()@ == "[Summary of earlier progress]\n"@
                    + full
                &&& final(request).contents@ == without_range(
                    old(request).contents@,
                    plan.user_idx + 1,
                    plan.summary_end as int,
                )
                &&& final(state)@.last_summary_idx == Some((plan.summary_end - 1) as u64)
                &&& final(state)@.context_summary == Some(full)
                &&& final(state)@.pending_tool_calls == old(state)@.pending_tool_calls
                &&& final(state)@.tool_confirmations == old(state)@.tool_confirmations
            }),
    {
        let full = match &state.context_summary {
            Some(prev) => {
                let mut f = prev.clone();
                f.append("\n\n");
                f.append(new_summary_chunk);
                f
            },
            None => String::from_str(new_summary_chunk),
        };
        let mut instruction = String::from_str("[Summary of earlier progress]\n");
        instruction.append(full.as_str());
        let ghost before = request.instructions@;
        request.append_instructions(instruction);
        proof {
            assert(request.instructions@.take(before.len() as int) =~= before);
        }
        remove_range(&mut request.contents, plan.user_idx + 1, plan.summary_end);
        state.last_summary_idx = Some((plan.summary_end - 1) as u64);
        state.context_summary = Some(full);
    }
}

/// A summary pass keeps everything up to and including the first user message
/// and the last `keep_recent` items, each unchanged and in order: what `finish`
/// removes lies strictly between them.
pub proof fn law_summary_keeps_head_and_recent(c: Seq<ContentItem>, keep_recent: nat, user_idx: int)
    requires
        0 <= user_idx < c.len(),
        keep_recent < c.len(),
        user_idx < safe_start(c, c.len() - keep_recent),
    ensures
        ({
            let r = without_range(c, user_idx + 1, safe_start(c, c.len() - keep_recent));
            &&& r.take(user_idx + 1) == c.take(user_idx + 1)
            &&& r.len() >= user_idx + 1 + keep_recent
            &&& r.skip(r.len() - keep_recent) == c.skip(c.len() - keep_recent)
        }),
{
    let e = safe_start(c, c.len() - keep_recent);
    law_safe_start_pairs_results(c, c.len() - keep_recent);
    let r = without_range(c, user_idx + 1, e);
    assert(r.take(user_idx + 1) =~= c.take(user_idx + 1));
    assert(r.skip(r.len() - keep_recent) =~= c.skip(c.len() - keep_recent));
}

/// A new summary picks up where the last one stopped: with a recorded last
/// summarized position `v`, the planned items start at `v + 1`, so no item at
/// or before `v` is summarized again; without one they start right after the
/// first user message.
pub proof fn law_summary_resumes_after_last_summary(last_summary_idx: Option<u64>, user_idx: int)
    requires
        last_summary_idx matches Some(v) ==> v < usize::MAX,
    ensures
        last_summary_idx matches Some(v) ==> summary_start_of(last_summary_idx, user_idx) == v + 1,
        last_summary_idx is None ==> summary_start_of(last_summary_idx, user_idx) == user_idx + 1,
{
}

} // verus!
