//! Recording the tool calls of a reply and the results of running them.

use crate::agent::confirmation::{
    confirmation_message, tool_error_message, unknown_tool_message, PendingToolCall,
};
use crate::agent::context::ExecutionContext;
use crate::agent::event::{
    canonical_arguments, canonical_arguments_of, item_views, ContentItem, ContentItemView, Event,
    ToolCall, ToolResultStatus,
};
use crate::agent::runtime::Agent;
use crate::session::model::StateView;
use crate::text::replace_all;
use vstd::prelude::*;

verus! {

/// A tool call as the model returned it: a function call with its raw
/// argument text, or a call of a custom tool with its input, which the
/// runtime does not run.
#[derive(Debug, Clone)]
pub enum LlmToolCall {
    Function { id: String, name: String, arguments: String },
    Custom { id: String, name: String, input: String },
}

/// The content items recorded for the function calls among `calls`.
pub open spec fn recorded_calls(calls: Seq<LlmToolCall>) -> Seq<ContentItemView>
    decreases calls.len(),
{
    if calls.len() == 0 {
        Seq::empty()
    } else {
        let earlier = recorded_calls(calls.drop_last());
        match calls.last() {
            LlmToolCall::Function { id, name, arguments } => earlier.push(
                ContentItemView::ToolCall {
                    tool_call_id: id@,
                    name: name@,
                    arguments: canonical_arguments_of(arguments@),
                },
            ),
            LlmToolCall::Custom { .. } => earlier,
        }
    }
}

/// `after` is `before` with one event appended by `author` during this run.
pub open spec fn appended_event(
    before: ExecutionContext,
    after: ExecutionContext,
    author: Seq<char>,
    content: Seq<ContentItemView>,
) -> bool {
    &&& after.session.events@.len() == before.session.events@.len() + 1
    &&& after.session.events@.drop_last() == before.session.events@
    &&& after.session.events@.last().execution_id@ == before.execution_id@
    &&& after.session.events@.last().author@ == author
    &&& item_views(after.session.events@.last().content@) == content
    &&& after.session.session_id == before.session.session_id
    &&& after.session.state == before.session.state
    &&& after.execution_id == before.execution_id
    &&& after.current_step == before.current_step
    &&& after.final_result == before.final_result
    &&& after.usage == before.usage
}

/// The results and held-back calls of running one reply's tool calls.
#[derive(Debug)]
pub struct ToolBatch {
    pub results: Vec<ContentItem>,
    pub pending: Vec<PendingToolCall>,
}

impl ToolBatch {
    /// No results and nothing held back.
    pub fn new() -> (b: Self)
        ensures
            b.results@.len() == 0,
            b.pending@.len() == 0,
    {
        ToolBatch { results: Vec::new(), pending: Vec::new() }
    }

    /// Holds a call back until a person approves it.
    pub fn hold_for_confirmation(
        &mut self,
        tool_call_id: &str,
        name: &str,
        raw_arguments: &str,
        confirmation_message: String,
    )
        ensures
            final(self).results@ == old(self).results@,
            final(self).pending@.len() == old(self).pending@.len() + 1,
            final(self).pending@.drop_last() == old(self).pending@,
            final(self).pending@.last().tool_call.tool_call_id@ == tool_call_id@,
            final(self).pending@.last().tool_call.name@ == name@,
            final(self).pending@.last().tool_call.arguments@ == canonical_arguments_of(raw_arguments@),
            final(self).pending@.last().confirmation_message == confirmation_message,
    {
        let call = ToolCall {
            tool_call_id: crate::text::owned(tool_call_id),
            name: crate::text::owned(name),
            arguments: canonical_arguments(raw_arguments),
        };
        self.pending.push(PendingToolCall { confirmation_message, tool_call: call });
        proof {
            assert(self.pending@.drop_last() =~= old(self).pending@);
        }
    }

    /// Records the result of one call.
    pub fn add_result(&mut self, tool_call_id: &str, name: &str, status: ToolResultStatus, content: String)
        ensures
            final(self).pending@ == old(self).pending@,
            item_views(final(self).results@) == item_views(old(self).results@).push(
                ContentItemView::ToolResult {
                    tool_call_id: tool_call_id@,
                    name: name@,
                    status,
                    content: content@,
                },
            ),
    {
        self.results.push(
            ContentItem::ToolResult {
                tool_call_id: crate::text::owned(tool_call_id),
                name: crate::text::owned(name),
                status,
                content,
            },
        );
        proof {
            assert(item_views(self.results@) =~= item_views(old(self).results@).push(
                self.results@.last()@,
            ));
        }
    }
}

/// What the runtime knows of a tool before a call: whether calls wait for a
/// person's approval, and the question put to that person (`{name}` and
/// `{arguments}` stand for the tool and the call's argument text).
#[derive(Debug, Clone)]
pub struct ToolInfo {
    pub requires_confirmation: bool,
    pub confirmation_message_template: String,
}

/// What becomes of one call of a reply.
#[derive(Debug)]
pub enum CallAction {
    /// Not a function call: nothing is done.
    Skip,
    /// The call waits for approval; it is in the batch's pending calls.
    Held,
    /// Run the tool `name` with the raw argument text (when there is such a
    /// tool) and add its result.
    Run { id: String, name: String, arguments: String },
}

impl ToolBatch {
    /// Decides what to do with one call, given what is known of the tool it
    /// names (`None` when there is no such tool). A call of a tool that needs
    /// approval is held back with its question; any other function call,
    /// including one of an unknown tool, is to be run.
    pub fn dispatch(&mut self, call: &LlmToolCall, tool: Option<&ToolInfo>) -> (a: CallAction)
        ensures
            match call {
                LlmToolCall::Custom { .. } => a is Skip && *final(self) == *old(self),
                LlmToolCall::Function { id, name, arguments } => if tool matches Some(t)
                    && t.requires_confirmation {
                        &&& a is Held
                        &&& final(self).results@ == old(self).results@
                        &&& final(self).pending@.drop_last() == old(self).pending@
                        &&& final(self).pending@.len() == old(self).pending@.len() + 1
                        &&& final(self).pending@.last().tool_call.tool_call_id@ == id@
                        &&& final(self).pending@.last().tool_call.name@ == name@
                        &&& final(self).pending@.last().tool_call.arguments@ == canonical_arguments_of(arguments@)
                        &&& final(self).pending@.last().confirmation_message@ == replace_all(
                            replace_all(tool->0.confirmation_message_template@, "{name}"@, name@),
                            "{arguments}"@,
                            canonical_arguments_of(arguments@),
                        )
                    } else {
                        &&& a matches CallAction::Run { id: ri, name: rn, arguments: ra } && ri@ == id@
                            && rn@ == name@ && ra@ == arguments@
                        &&& *final(self) == *old(self)
                    },
            },
    {
        match call {
            LlmToolCall::Custom { .. } => CallAction::Skip,
            LlmToolCall::Function { id, name, arguments } => {
                let template = match tool {
                    Some(t) => if t.requires_confirmation {
                        Some(t.confirmation_message_template.as_str())
                    } else {
                        None
                    },
                    None => None,
                };
                match template {
                    Some(template) => {
                        let args = canonical_arguments(arguments.as_str());
                        let message = confirmation_message(template, name.as_str(), args.as_str());
                        self.hold_for_confirmation(id.as_str(), name.as_str(), arguments.as_str(), message);
                        CallAction::Held
                    },
                    None => CallAction::Run { id: id.clone(), name: name.clone(), arguments: arguments.clone() },
                }
            },
        }
    }
}

/// The status and text of a call's result from what running it gave: the
/// tool's output on success, its error message behind the error prefix, or,
/// when no tool has that name (`None`), the unknown-tool error.
pub fn tool_outcome(name: &str, ran: Option<Result<String, String>>) -> (r: (ToolResultStatus, String))
    ensures
        match ran {
            Some(Ok(out)) => r == (ToolResultStatus::Success, out),
            Some(Err(e)) => r.0 == ToolResultStatus::Error && r.1@ == "Tool execution error: "@ + e@,
            None => r.0 == ToolResultStatus::Error && r.1@ == "Tool execution error: unknown tool "@ + name@,
        },
{
    match ran {
        Some(Ok(out)) => (ToolResultStatus::Success, out),
        Some(Err(e)) => (ToolResultStatus::Error, tool_error_message(e.as_str())),
        None => (ToolResultStatus::Error, unknown_tool_message(name)),
    }
}

/// The first answer in `answers`, if any.
pub open spec fn first_some<T>(answers: Seq<Option<T>>) -> Option<T>
    decreases answers.len(),
{
    if answers.len() == 0 {
        None
    } else if answers[0] is Some {
        answers[0]
    } else {
        first_some(answers.drop_first())
    }
}

/// Takes the first answer of the callbacks asked in turn.
fn take_first_answer<T>(answers: Vec<Option<T>>) -> (r: Option<T>)
    ensures
        r == first_some(answers@),
{
    let n = answers.len();
    let mut rest = answers;
    let ghost all = rest@;
    proof {
        assert(all.skip(0) =~= all);
    }
    let mut k: usize = 0;
    while k < n
        invariant
            k <= n,
            n == all.len(),
            all == answers@,
            rest@.len() == n - k,
            rest@ == all.skip(k as int),
            first_some(all) == first_some(all.skip(k as int)),
        decreases n - k,
    {
        let ghost tail = all.skip(k as int);
        let a = rest.remove(0);
        proof {
            assert(a == tail[0]);
            assert(tail.drop_first() =~= all.skip(k + 1));
            assert(rest@ =~= all.skip(k + 1));
        }
        if a.is_some() {
            proof {
                assert(first_some(tail) == a);
            }
            return a;
        }
        k = k + 1;
    }
    proof {
        assert(all.skip(k as int).len() == 0);
    }
    None
}

/// The outcome of a call that the before-tool callbacks settle: the first
/// callback that answers decides it, as a success with its text; when none
/// answers, the tool runs.
pub fn short_circuit(answers: Vec<Option<String>>) -> (r: Option<(ToolResultStatus, String)>)
    ensures
        match first_some(answers@) {
            Some(text) => r == Some((ToolResultStatus::Success, text)),
            None => r is None,
        },
{
    match take_first_answer(answers) {
        Some(text) => Some((ToolResultStatus::Success, text)),
        None => None,
    }
}

/// The outcome of a call after the after-tool callbacks: the first callback
/// that answers replaces the status and text; when none answers, the outcome
/// stands.
pub fn after_callbacks(
    outcome: (ToolResultStatus, String),
    answers: Vec<Option<(ToolResultStatus, String)>>,
) -> (r: (ToolResultStatus, String))
    ensures
        r == match first_some(answers@) {
            Some(replacement) => replacement,
            None => outcome,
        },
{
    match take_first_answer(answers) {
        Some(replacement) => replacement,
        None => outcome,
    }
}

impl Agent {
    /// Records the function calls of a reply as one event by `agent`, each
    /// with its argument text normalised.
    pub fn record_tool_calls(&self, context: &mut ExecutionContext, tool_calls: &Vec<LlmToolCall>)
        ensures
            appended_event(*old(context), *final(context), "agent"@, recorded_calls(tool_calls@)),
    {
        let mut items: Vec<ContentItem> = Vec::new();
        let mut i: usize = 0;
        while i < tool_calls.len()
            invariant
                i <= tool_calls@.len(),
                item_views(items@) == recorded_calls(tool_calls@.take(i as int)),
            decreases tool_calls.len() - i,
        {
            proof {
                assert(tool_calls@.take(i + 1).drop_last() =~= tool_calls@.take(i as int));
            }
            match &tool_calls[i] {
                LlmToolCall::Function { id, name, arguments } => {
                    let ghost before = item_views(items@);
                    items.push(
                        ContentItem::ToolCall(
                            ToolCall {
                                tool_call_id: id.clone(),
                                name: name.clone(),
                                arguments: canonical_arguments(arguments.as_str()),
                            },
                        ),
                    );
                    proof {
                        assert(item_views(items@) =~= before.push(items@.last()@));
                    }
                },
                LlmToolCall::Custom { .. } => {},
            }
            i = i + 1;
        }
        proof {
            assert(tool_calls@.take(i as int) =~= tool_calls@);
        }
        let event = Event::new(context.execution_id.as_str(), "agent", items);
        proof {
            reveal_strlit("agent");
        }
        let ghost before = context.session.events@;
        context.add_event(event);
        proof {
            assert(context.session.events@.drop_last() =~= before);
        }
    }

    /// Ends a batch of tool calls: the held-back calls, if any, are kept in the
    /// state for a later run, and the results are recorded as one event by `tool`.
    pub fn finish_tool_calls(&self, context: &mut ExecutionContext, batch: ToolBatch)
        ensures
            final(context).session.events@.len() == old(context).session.events@.len() + 1,
            final(context).session.events@.drop_last() == old(context).session.events@,
            final(context).session.events@.last().execution_id@ == old(context).execution_id@,
            final(context).session.events@.last().author@ == "tool"@,
            final(context).session.events@.last().content@ == batch.results@,
            final(context).session.session_id == old(context).session.session_id,
            final(context).execution_id == old(context).execution_id,
            final(context).current_step == old(context).current_step,
            final(context).final_result == old(context).final_result,
            final(context).usage == old(context).usage,
            final(context).session.state@ == (if batch.pending@.len() > 0 {
                StateView { pending_tool_calls: Some(batch.pending@), ..old(context).session.state@ }
            } else {
                old(context).session.state@
            }),
    {
        let ToolBatch { results, pending } = batch;
        if pending.len() > 0 {
            context.session.state.pending_tool_calls = Some(pending);
        }
        let event = Event::new(context.execution_id.as_str(), "tool", results);
        let ghost before = context.session.events@;
        context.add_event(event);
        proof {
            assert(context.session.events@.drop_last() =~= before);
        }
    }
}

} // verus!
