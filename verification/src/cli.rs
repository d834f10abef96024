//! Session ids as the terminal front end shows them.

use crate::agent::confirmation::{PendingToolCall, ToolConfirmation};
use crate::agent::context::{ExecutionContext, TokenUsage};
use crate::agent::event::{event_views, ContentItem, EventView, ToolResultStatus};
use crate::agent::runtime::{flatten_contents, AgentResult};
use crate::clock::new_uuid_string;
use crate::text::{
    char_prefix, decimal, decimal_string, eq_ignore_ascii_case, eq_ignore_ascii_case_str, str_equal,
    take_chars, trim, trim_string,
};
use vstd::prelude::*;
use vstd::string::*;

verus! {

/// A new random session id.
pub fn new_session_id() -> (r: String)
    ensures
        r@.len() == 36,
{
    new_uuid_string()
}

/// The first eight bytes of the id, or the whole id when it is shorter or the
/// eighth byte falls inside a character.
pub fn short_session_id(session_id: &str) -> (r: &str)
    ensures
        session_id.len() >= 8 && vstd::utf8::is_char_boundary(session_id.spec_bytes(), 8)
            ==> r.spec_bytes() =~= session_id.spec_bytes().subrange(0, 8),
        !(session_id.len() >= 8 && vstd::utf8::is_char_boundary(session_id.spec_bytes(), 8)) ==> r
            == session_id,
{
    if session_id.len() >= 8 && session_id.is_char_boundary(8) {
        let (head, _) = session_id.split_at(8);
        head
    } else {
        session_id
    }
}

/// What a line typed at the prompt asks for.
#[derive(Debug, Clone)]
pub enum Command {
    /// Nothing was typed.
    Empty,
    Help,
    Quit,
    NewSession,
    ShowSession,
    /// A line starting with `/` that is no command; the trimmed line.
    Unknown(String),
    /// A question for the agent; the trimmed line.
    Prompt(String),
}

/// Reads a typed line: the commands `/help`, `/quit` or `/exit`, `/new` and
/// `/session`, any other line starting with `/` as an unknown command, and
/// everything else as a question.
pub fn parse_command(line: &str) -> (c: Command)
    ensures
        ({
            let t = trim(line@);
            if t.len() == 0 {
                c is Empty
            } else if t == "/help"@ {
                c is Help
            } else if t == "/quit"@ || t == "/exit"@ {
                c is Quit
            } else if t == "/new"@ {
                c is NewSession
            } else if t == "/session"@ {
                c is ShowSession
            } else if t[0] == '/' {
                c matches Command::Unknown(u) && u@ == t
            } else {
                c matches Command::Prompt(p) && p@ == t
            }
        }),
{
    let t = trim_string(line);
    if t.as_str().unicode_len() == 0 {
        Command::Empty
    } else if str_equal(t.as_str(), "/help") {
        Command::Help
    } else if str_equal(t.as_str(), "/quit") || str_equal(t.as_str(), "/exit") {
        Command::Quit
    } else if str_equal(t.as_str(), "/new") {
        Command::NewSession
    } else if str_equal(t.as_str(), "/session") {
        Command::ShowSession
    } else if t.as_str().get_char(0) == '/' {
        Command::Unknown(t)
    } else {
        Command::Prompt(t)
    }
}

/// The answer to one held-back call from what the person typed: approved
/// when the trimmed answer is `y` in either case; a refusal carries a reason.
pub fn confirmation_from_answer(pending: &PendingToolCall, answer: &str) -> (c: ToolConfirmation)
    ensures
        c.tool_call_id == pending.tool_call.tool_call_id,
        c.approved == eq_ignore_ascii_case(trim(answer@), "y"@),
        c.approved ==> c.reason is None,
        !c.approved ==> (c.reason matches Some(r) && r@ == "用户拒绝了这次操作"@),
        c.modified_arguments is None,
{
    let t = trim_string(answer);
    let approved = eq_ignore_ascii_case_str(t.as_str(), "y");
    ToolConfirmation {
        tool_call_id: pending.tool_call.tool_call_id.clone(),
        reason: if approved {
            None
        } else {
            Some(String::from_str("用户拒绝了这次操作"))
        },
        approved,
        modified_arguments: None,
    }
}

/// The session totals after adding one run's usage.
pub fn add_usage(total: TokenUsage, current: TokenUsage) -> (r: TokenUsage)
    requires
        total.can_add(current.prompt_tokens, current.completion_tokens, current.total_tokens),
    ensures
        r.prompt_tokens == total.prompt_tokens + current.prompt_tokens,
        r.completion_tokens == total.completion_tokens + current.completion_tokens,
        r.total_tokens == total.total_tokens + current.total_tokens,
{
    let mut t = total;
    t.add(current.prompt_tokens, current.completion_tokens, current.total_tokens);
    t
}

/// The name `{:?}` gives a status.
pub open spec fn status_name(s: ToolResultStatus) -> Seq<char> {
    match s {
        ToolResultStatus::Success => "Success"@,
        ToolResultStatus::Error => "Error"@,
    }
}

/// The trace shown for one content item, if any: tool calls and tool results.
pub open spec fn trace_block(item: ContentItem) -> Option<Seq<char>> {
    match item {
        ContentItem::ToolCall(c) => Some("\n🔧 调用工具："@ + c.name@ + "\n   参数："@ + c.arguments@),
        ContentItem::ToolResult { name, status, content, .. } => Some(
            "   工具结果："@ + name@ + " ["@ + status_name(status) + "]\n   "@ + char_prefix(content@, 500)
                + if content@.len() > 500 {
                "..."@
            } else {
                ""@
            },
        ),
        ContentItem::Message { .. } => None,
    }
}

/// The trace blocks for `items`, in order.
pub open spec fn trace_blocks(items: Seq<ContentItem>) -> Seq<Seq<char>>
    decreases items.len(),
{
    if items.len() == 0 {
        Seq::empty()
    } else {
        match trace_block(items.last()) {
            Some(b) => trace_blocks(items.drop_last()).push(b),
            None => trace_blocks(items.drop_last()),
        }
    }
}

/// The items of the events that belong to the run `execution_id`.
pub open spec fn run_items(events: Seq<EventView>, execution_id: Seq<char>) -> Seq<ContentItem>
    decreases events.len(),
{
    if events.len() == 0 {
        Seq::empty()
    } else if events.last().execution_id == execution_id {
        run_items(events.drop_last(), execution_id) + events.last().content
    } else {
        run_items(events.drop_last(), execution_id)
    }
}

fn status_text(s: ToolResultStatus) -> (r: &'static str)
    ensures
        r@ == status_name(s),
{
    match s {
        ToolResultStatus::Success => "Success",
        ToolResultStatus::Error => "Error",
    }
}

fn trace_block_string(item: &ContentItem) -> (r: Option<String>)
    ensures
        crate::json::opt_view(r) == trace_block(*item),
{
    match item {
        ContentItem::ToolCall(c) => {
            let mut t = String::from_str("\n🔧 调用工具：");
            t.append(c.name.as_str());
            t.append("\n   参数：");
            t.append(c.arguments.as_str());
            Some(t)
        },
        ContentItem::ToolResult { name, status, content, .. } => {
            let mut t = String::from_str("   工具结果：");
            t.append(name.as_str());
            t.append(" [");
            t.append(status_text(*status));
            t.append("]\n   ");
            let preview = take_chars(content.as_str(), 500);
            t.append(preview.as_str());
            if content.as_str().unicode_len() > 500 {
                t.append("...");
            } else {
                t.append("");
            }
            Some(t)
        },
        ContentItem::Message { .. } => None,
    }
}

/// The blocks printed to trace the tool calls and results of the current run.
pub fn tool_trace(context: &ExecutionContext) -> (r: Vec<String>)
    ensures
        crate::text::views(r@) == trace_blocks(
            run_items(event_views(context.session.events@), context.execution_id@),
        ),
{
    let events = &context.session.events;
    let ghost evs = event_views(events@);
    let mut out: Vec<String> = Vec::new();
    let mut i: usize = 0;
    while i < events.len()
        invariant
            i <= events@.len(),
            evs == event_views(events@),
            crate::text::views(out@) == trace_blocks(run_items(evs.take(i as int), context.execution_id@)),
        decreases events.len() - i,
    {
        proof {
            assert(evs.take(i + 1).drop_last() =~= evs.take(i as int));
        }
        if str_equal(events[i].execution_id.as_str(), context.execution_id.as_str()) {
            let items = &events[i].content;
            let ghost base = run_items(evs.take(i as int), context.execution_id@);
            let mut j: usize = 0;
            while j < items.len()
                invariant
                    j <= items@.len(),
                    crate::text::views(out@) == trace_blocks(base + items@.take(j as int)),
                decreases items.len() - j,
            {
                proof {
                    assert((base + items@.take(j + 1)).drop_last() =~= base + items@.take(j as int));
                }
                let ghost before = crate::text::views(out@);
                match trace_block_string(&items[j]) {
                    Some(b) => {
                        out.push(b);
                        proof {
                            assert(crate::text::views(out@) =~= before.push(b@));
                        }
                    },
                    None => {},
                }
                j = j + 1;
            }
            proof {
                assert(items@.take(j as int) =~= items@);
            }
        }
        i = i + 1;
    }
    proof {
        assert(evs.take(i as int) =~= evs);
    }
    out
}

/// The answer line printed after a run.
pub fn result_answer_line(result: &AgentResult) -> (r: String)
    ensures
        r@ == "\n助手："@ + match result.output {
            Some(o) => o@,
            None => "这次操作没有生成最终回答。"@,
        },
{
    let mut t = String::from_str("\n助手：");
    match &result.output {
        Some(o) => t.append(o.as_str()),
        None => t.append("这次操作没有生成最终回答。"),
    }
    t
}

/// The usage line printed after a run: steps and tokens of the run, then the
/// session's totals.
pub fn result_usage_line(result: &AgentResult, session_usage: &TokenUsage) -> (r: String)
    ensures
        r@ == "（本次 "@ + decimal(result.context.current_step as nat) + " 步，本次 "@ + decimal(
            result.context.usage.total_tokens as nat,
        ) + " tokens；会话累计 prompt="@ + decimal(session_usage.prompt_tokens as nat) + " completion="@
            + decimal(session_usage.completion_tokens as nat) + " total="@ + decimal(
            session_usage.total_tokens as nat,
        ) + " tokens）"@,
{
    let mut t = String::from_str("（本次 ");
    let a = decimal_string(result.context.current_step as usize);
    t.append(a.as_str());
    t.append(" 步，本次 ");
    let b = decimal_string(result.context.usage.total_tokens as usize);
    t.append(b.as_str());
    t.append(" tokens；会话累计 prompt=");
    let c = decimal_string(session_usage.prompt_tokens as usize);
    t.append(c.as_str());
    t.append(" completion=");
    let d = decimal_string(session_usage.completion_tokens as usize);
    t.append(d.as_str());
    t.append(" total=");
    let e = decimal_string(session_usage.total_tokens as usize);
    t.append(e.as_str());
    t.append(" tokens）");
    t
}

/// The trace of a tool result shows the result's own status: after the
/// heading with the tool's name comes `[Error]` for a failed result and
/// `[Success]` for a successful one, and a tool call's trace shows its name
/// and argument text.
pub proof fn law_trace_shows_the_result_status(item: ContentItem)
    ensures
        item matches ContentItem::ToolResult { name, status, .. } ==> {
            let head = "   工具结果："@ + name@ + " "@;
            let mark = match status {
                ToolResultStatus::Error => "[Error]"@,
                ToolResultStatus::Success => "[Success]"@,
            };
            trace_block(item) matches Some(b) && b.len() >= head.len() + mark.len() && b.subrange(
                0,
                (head.len() + mark.len()) as int,
            ) == head + mark
        },
        item matches ContentItem::ToolCall(c) ==> trace_block(item) == Some(
            "\n🔧 调用工具："@ + c.name@ + "\n   参数："@ + c.arguments@,
        ),
        item is Message ==> trace_block(item) is None,
{
    match item {
        ContentItem::ToolResult { name, status, content, .. } => {
            reveal_strlit("[Error]");
            reveal_strlit("[Success]");
            reveal_strlit(" [");
            reveal_strlit("]\n   ");
            reveal_strlit(" ");
            reveal_strlit("Error");
            reveal_strlit("Success");
            let head = "   工具结果："@ + name@ + " "@;
            let b = trace_block(item)->0;
            let mark = match status {
                ToolResultStatus::Error => "[Error]"@,
                ToolResultStatus::Success => "[Success]"@,
            };
            assert(b.subrange(0, (head.len() + mark.len()) as int) =~= head + mark);
        },
        _ => {},
    }
}

} // verus!
