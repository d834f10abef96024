//! The agent: its settings and the decisions of its run loop.

use crate::agent::confirmation::{
    answer_confirmations, answer_of, confirmation_for, decision_matches, duplicate_pending,
    ConfirmationDecision, PendingToolCall, ToolConfirmation,
};
use crate::agent::context::{ExecutionContext, TokenUsage};
use crate::agent::event::{item_views, ContentItem, ContentItemView, Event, EventView, ToolResultStatus};
use crate::agent::llm_request::LlmRequest;
use crate::agent::tool_exec::{appended_event, recorded_calls, LlmToolCall, ToolBatch};
use crate::session::model::{Session, StateView};
use crate::text::{decimal, decimal_string, str_equal};
use vstd::prelude::*;
use vstd::string::*;

verus! {

/// Whether a run finished or stopped to wait for approvals.
#[derive(Debug, Clone, Copy, PartialEq, Eq, Structural)]
pub enum AgentStatus {
    Complete,
    PendingConfirmation,
}

/// The settings of an agent.
pub struct Agent {
    pub model: String,
    pub instructions: Option<String>,
    pub max_steps: u32,
}

impl Agent {
    /// An agent for `model` with optional system instructions and a limit of
    /// 10 steps.
    pub fn new(model: &str, instructions: Option<&str>) -> (a: Self)
        ensures
            a.model@ == model@,
            match instructions {
                Some(i) => a.instructions matches Some(s) && s@ == i@,
                None => a.instructions is None,
            },
            a.max_steps == 10,
    {
        Agent {
            model: String::from_str(model),
            instructions: match instructions {
                Some(i) => Some(String::from_str(i)),
                None => None,
            },
            max_steps: 10,
        }
    }

    /// The same agent with another step limit.
    pub fn with_max_steps(self, max_steps: u32) -> (a: Self)
        ensures
            a.max_steps == max_steps,
            a.model == self.model,
            a.instructions == self.instructions,
    {
        Agent { max_steps, ..self }
    }
}

/// Why a run stopped without a result.
#[derive(Debug, Clone)]
pub enum AgentError {
    /// The step limit was reached without a final answer.
    MaxStepsExceeded(u32),
    /// The reply held no choice.
    NoChoices,
    /// The reply had neither tool calls nor text.
    NoFinalContent,
    /// A reply that had to call a tool called none.
    NoToolCall,
}

impl AgentError {
    /// The message of the error.
    pub fn message(&self) -> (r: String)
        ensures
            r@ == match self {
                AgentError::MaxStepsExceeded(n) => "Agent exceeded the maximum of "@ + decimal(
                    *n as nat,
                ) + " steps without a final answer"@,
                AgentError::NoChoices => "No choices in response"@,
                AgentError::NoFinalContent => "No content in final response"@,
                AgentError::NoToolCall => "Model returned no tool call despite tool_choice = required"@,
            },
    {
        match self {
            AgentError::MaxStepsExceeded(n) => {
                let mut m = String::from_str("Agent exceeded the maximum of ");
                let d = decimal_string(*n as usize);
                m.append(d.as_str());
                m.append(" steps without a final answer");
                m
            },
            AgentError::NoChoices => String::from_str("No choices in response"),
            AgentError::NoFinalContent => String::from_str("No content in final response"),
            AgentError::NoToolCall => String::from_str(
                "Model returned no tool call despite tool_choice = required",
            ),
        }
    }
}

/// The token counts a reply reports.
#[derive(Debug, Clone, Copy)]
pub struct LlmUsage {
    pub prompt_tokens: u32,
    pub completion_tokens: u32,
    pub total_tokens: u32,
}

/// The first choice of a model reply.
#[derive(Debug)]
pub struct AssistantReply {
    pub content: Option<String>,
    pub tool_calls: Option<Vec<LlmToolCall>>,
}

/// What the loop does after a reply.
#[derive(Debug)]
pub enum ReplyOutcome {
    /// Run these tool calls (they are already recorded).
    RunTools(Vec<LlmToolCall>),
    /// The run is complete with this answer (already recorded).
    Answer(String),
}

/// The result of a run.
#[derive(Debug)]
pub struct AgentResult {
    pub output: Option<String>,
    pub context: ExecutionContext,
    pub status: AgentStatus,
    pub pending_tool_calls: Vec<PendingToolCall>,
}

/// The content items of a list of events, in order.
pub open spec fn flatten_contents(events: Seq<EventView>) -> Seq<ContentItem>
    decreases events.len(),
{
    if events.len() == 0 {
        Seq::empty()
    } else {
        flatten_contents(events.drop_last()) + events.last().content
    }
}

/// The user message added at the start of a run.
pub open spec fn user_message_view(input: Seq<char>) -> ContentItemView {
    ContentItemView::Message { role: "user"@, content: input }
}

impl Agent {
    /// Starts a run over `session`: a fresh execution, the user input (if any)
    /// recorded as an event by `user`, and the confirmations (if any) kept in
    /// the state for the first step.
    pub fn begin_run(
        &self,
        session: Session,
        user_input: Option<&str>,
        tool_confirmations: Option<Vec<ToolConfirmation>>,
    ) -> (c: ExecutionContext)
        ensures
            c.current_step == 0,
            c.final_result is None,
            c.usage == TokenUsage::zero_view(),
            c.execution_id@.len() == 36,
            c.session.session_id == session.session_id,
            c.session.user_id == session.user_id,
            match user_input {
                Some(input) => {
                    &&& c.session.events@.len() == session.events@.len() + 1
                    &&& c.session.events@.drop_last() == session.events@
                    &&& c.session.events@.last().author@ == "user"@
                    &&& c.session.events@.last().execution_id@ == c.execution_id@
                    &&& item_views(c.session.events@.last().content@) == seq![user_message_view(input@)]
                },
                None => c.session.events@ == session.events@,
            },
            c.session.state@ == (match tool_confirmations {
                Some(v) => StateView { tool_confirmations: Some(v@), ..session.state@ },
                None => session.state@,
            }),
    {
        let mut context = ExecutionContext::new(session);
        match user_input {
            Some(input) => {
                let mut content: Vec<ContentItem> = Vec::new();
                content.push(
                    ContentItem::Message {
                        role: String::from_str("user"),
                        content: String::from_str(input),
                    },
                );
                let event = Event::new(context.execution_id.as_str(), "user", content);
                let ghost before = context.session.events@;
                context.add_event(event);
                proof {
                    reveal_strlit("user");
                    assert(context.session.events@.drop_last() =~= before);
                    assert(item_views(context.session.events@.last().content@) =~= seq![
                        user_message_view(input@),
                    ]);
                }
            },
            None => {},
        }
        match tool_confirmations {
            Some(v) => {
                context.session.state.tool_confirmations = Some(v);
            },
            None => {},
        }
        context
    }

    /// Refuses another step once the step limit is reached.
    pub fn check_step_limit(&self, context: &ExecutionContext) -> (r: Result<(), AgentError>)
        ensures
            r is Ok <==> context.current_step < self.max_steps,
            r matches Err(e) ==> e matches AgentError::MaxStepsExceeded(n) && n == self.max_steps,
    {
        if context.current_step >= self.max_steps {
            Err(AgentError::MaxStepsExceeded(self.max_steps))
        } else {
            Ok(())
        }
    }

    /// Takes the held-back calls and their confirmations out of the state. Both
    /// entries are removed; the pair comes back only when both were there.
    pub fn take_confirmations(context: &mut ExecutionContext) -> (r: Option<
        (Vec<PendingToolCall>, Vec<ToolConfirmation>),
    >)
        ensures
            final(context).session.state@ == (StateView {
                pending_tool_calls: None,
                tool_confirmations: None,
                ..old(context).session.state@
            }),
            final(context).session.events == old(context).session.events,
            final(context).session.session_id == old(context).session.session_id,
            final(context).execution_id == old(context).execution_id,
            final(context).current_step == old(context).current_step,
            final(context).final_result == old(context).final_result,
            final(context).usage == old(context).usage,
            (match (old(context).session.state@.pending_tool_calls, old(context).session.state@.tool_confirmations) {
                (Some(p), Some(c)) => r matches Some((rp, rc)) && rp@ == p && rc@ == c,
                _ => r is None,
            }),
    {
        let pending = context.session.state.pending_tool_calls.take();
        let confirmations = context.session.state.tool_confirmations.take();
        match (pending, confirmations) {
            (Some(p), Some(c)) => Some((p, c)),
            _ => None,
        }
    }

    /// Records the answers to held-back calls as one event by `tool`, unless
    /// there are none.
    pub fn record_confirmation_results(context: &mut ExecutionContext, results: Vec<ContentItem>)
        ensures
            results@.len() == 0 ==> *final(context) == *old(context),
            results@.len() > 0 ==> appended_event(*old(context), *final(context), "tool"@, item_views(results@)),
    {
        if results.len() > 0 {
            let ghost rv = item_views(results@);
            let event = Event::new(context.execution_id.as_str(), "tool", results);
            let ghost before = context.session.events@;
            context.add_event(event);
            proof {
                reveal_strlit("tool");
                assert(context.session.events@.drop_last() =~= before);
            }
        }
    }

    /// The request for the next model call: every content item of the session,
    /// in order, and no extra instructions.
    pub fn request_from_context(context: &ExecutionContext) -> (r: LlmRequest)
        ensures
            r.instructions@.len() == 0,
            r.contents@ == flatten_contents(crate::agent::event::event_views(context.session.events@)),
    {
        let mut request = LlmRequest::new();
        let events = &context.session.events;
        let mut i: usize = 0;
        while i < events.len()
            invariant
                i <= events@.len(),
                request.instructions@.len() == 0,
                request.contents@ == flatten_contents(
                    crate::agent::event::event_views(events@).take(i as int),
                ),
            decreases events.len() - i,
        {
            let items = &events[i].content;
            let ghost before = request.contents@;
            let mut j: usize = 0;
            while j < items.len()
                invariant
                    j <= items@.len(),
                    request.instructions@.len() == 0,
                    request.contents@ == before + items@.take(j as int),
                decreases items.len() - j,
            {
                request.contents.push(items[j].duplicate());
                proof {
                    assert(items@.take(j + 1) =~= items@.take(j as int).push(items@[j as int]));
                }
                j = j + 1;
            }
            proof {
                assert(items@.take(j as int) =~= items@);
                assert(crate::agent::event::event_views(events@).take(i + 1).drop_last() =~= crate::agent::event::event_views(events@).take(i as int));
            }
            i = i + 1;
        }
        proof {
            assert(crate::agent::event::event_views(events@).take(i as int) =~= crate::agent::event::event_views(events@));
        }
        request
    }

    /// Adds a reply's token counts to the run's totals.
    pub fn record_usage(context: &mut ExecutionContext, usage: Option<LlmUsage>)
        requires
            usage matches Some(u) ==> old(context).usage.can_add(
                u.prompt_tokens,
                u.completion_tokens,
                u.total_tokens,
            ),
        ensures
            match usage {
                Some(u) => {
                    &&& final(context).usage.prompt_tokens == old(context).usage.prompt_tokens + u.prompt_tokens
                    &&& final(context).usage.completion_tokens == old(context).usage.completion_tokens + u.completion_tokens
                    &&& final(context).usage.total_tokens == old(context).usage.total_tokens + u.total_tokens
                },
                None => final(context).usage == old(context).usage,
            },
            final(context).session == old(context).session,
            final(context).execution_id == old(context).execution_id,
            final(context).current_step == old(context).current_step,
            final(context).final_result == old(context).final_result,
    {
        match usage {
            Some(u) => context.usage.add(u.prompt_tokens, u.completion_tokens, u.total_tokens),
            None => {},
        }
    }

    /// Acts on the first choice of a reply: tool calls are recorded and handed
    /// back to run; otherwise the text is recorded as the assistant's answer
    /// by `agent` and becomes the final result.
    pub fn handle_reply(&self, context: &mut ExecutionContext, reply: Option<AssistantReply>) -> (r:
        Result<ReplyOutcome, AgentError>)
        ensures
            match reply {
                None => r matches Err(AgentError::NoChoices) && *final(context) == *old(context),
                Some(rep) => match rep.tool_calls {
                    Some(calls) => r matches Ok(ReplyOutcome::RunTools(c)) && c@ == calls@
                        && appended_event(*old(context), *final(context), "agent"@, crate::agent::tool_exec::recorded_calls(calls@)),
                    None => match rep.content {
                        None => r matches Err(AgentError::NoFinalContent) && *final(context) == *old(context),
                        Some(text) => {
                            &&& r matches Ok(ReplyOutcome::Answer(a)) && a@ == text@
                            &&& final(context).final_result matches Some(f) && f@ == text@
                            &&& final(context).session.events@.len() == old(context).session.events@.len() + 1
                            &&& final(context).session.events@.drop_last() == old(context).session.events@
                            &&& final(context).session.events@.last().author@ == "agent"@
                            &&& final(context).session.events@.last().execution_id@ == old(context).execution_id@
                            &&& item_views(final(context).session.events@.last().content@) == seq![
                                ContentItemView::Message { role: "assistant"@, content: text@ },
                            ]
                            &&& final(context).session.state == old(context).session.state
                            &&& final(context).session.session_id == old(context).session.session_id
                            &&& final(context).execution_id == old(context).execution_id
                            &&& final(context).current_step == old(context).current_step
                            &&& final(context).usage == old(context).usage
                        },
                    },
                },
            },
    {
        let rep = match reply {
            Some(rep) => rep,
            None => {
                return Err(AgentError::NoChoices);
            },
        };
        match rep.tool_calls {
            Some(calls) => {
                self.record_tool_calls(context, &calls);
                Ok(ReplyOutcome::RunTools(calls))
            },
            None => match rep.content {
                None => Err(AgentError::NoFinalContent),
                Some(text) => {
                    let mut content: Vec<ContentItem> = Vec::new();
                    content.push(
                        ContentItem::Message {
                            role: String::from_str("assistant"),
                            content: text.clone(),
                        },
                    );
                    let event = Event::new(context.execution_id.as_str(), "agent", content);
                    let ghost before = context.session.events@;
                    context.add_event(event);
                    context.final_result = Some(text.clone());
                    proof {
                        reveal_strlit("agent");
                        reveal_strlit("assistant");
                        assert(context.session.events@.drop_last() =~= before);
                        assert(item_views(context.session.events@.last().content@) =~= seq![
                            ContentItemView::Message { role: "assistant"@, content: text@ },
                        ]);
                    }
                    Ok(ReplyOutcome::Answer(text))
                },
            },
        }
    }

    /// The calls held back by the last batch, if any.
    pub fn pending_after_tools(context: &ExecutionContext) -> (r: Option<Vec<PendingToolCall>>)
        ensures
            match context.session.state@.pending_tool_calls {
                Some(p) => r matches Some(v) && v@ == p,
                None => r is None,
            },
    {
        match &context.session.state.pending_tool_calls {
            Some(p) => Some(duplicate_pending(p)),
            None => None,
        }
    }
}

/// The result of a run that must end with a structured answer.
#[derive(Debug)]
pub struct StructuredAgentResult<T> {
    pub output: T,
    pub context: ExecutionContext,
    pub status: AgentStatus,
}

/// The position of the first function call named `final_answer`.
pub open spec fn is_final_answer_at(calls: Seq<LlmToolCall>, i: int) -> bool {
    &&& 0 <= i < calls.len()
    &&& calls[i] matches LlmToolCall::Function { name, .. } && name@ == "final_answer"@
    &&& forall|j: int|
        0 <= j < i ==> !(#[trigger] calls[j] matches LlmToolCall::Function { name, .. } && name@
            == "final_answer"@)
}

impl Agent {
    /// The id and raw argument text of the first call to `final_answer`.
    pub fn find_final_answer(tool_calls: &Vec<LlmToolCall>) -> (r: Option<(String, String)>)
        ensures
            match r {
                Some((id, args)) => exists|i: int|
                    is_final_answer_at(tool_calls@, i) && (#[trigger] tool_calls@[i] matches LlmToolCall::Function {
                        id: i_id,
                        arguments: i_args,
                        ..
                    } && i_id@ == id@ && i_args@ == args@),
                None => forall|i: int| 0 <= i < tool_calls@.len() ==> !is_final_answer_at(tool_calls@, i),
            },
    {
        let mut i: usize = 0;
        while i < tool_calls.len()
            invariant
                i <= tool_calls@.len(),
                forall|j: int|
                    0 <= j < i ==> !(#[trigger] tool_calls@[j] matches LlmToolCall::Function { name, .. }
                        && name@ == "final_answer"@),
            decreases tool_calls.len() - i,
        {
            match &tool_calls[i] {
                LlmToolCall::Function { id, name, arguments } => {
                    if str_equal(name.as_str(), "final_answer") {
                        proof {
                            assert(is_final_answer_at(tool_calls@, i as int));
                        }
                        return Some((id.clone(), arguments.clone()));
                    }
                },
                LlmToolCall::Custom { .. } => {},
            }
            i = i + 1;
        }
        None
    }

    /// Reads the first choice of a reply that had to call a tool: the calls are
    /// recorded and handed back.
    pub fn handle_structured_reply(&self, context: &mut ExecutionContext, reply: Option<AssistantReply>) -> (r:
        Result<Vec<LlmToolCall>, AgentError>)
        ensures
            match reply {
                None => r matches Err(AgentError::NoChoices) && *final(context) == *old(context),
                Some(rep) => match rep.tool_calls {
                    None => r matches Err(AgentError::NoToolCall) && *final(context) == *old(context),
                    Some(calls) => r matches Ok(c) && c@ == calls@ && appended_event(
                        *old(context),
                        *final(context),
                        "agent"@,
                        crate::agent::tool_exec::recorded_calls(calls@),
                    ),
                },
            },
    {
        let rep = match reply {
            Some(rep) => rep,
            None => {
                return Err(AgentError::NoChoices);
            },
        };
        match rep.tool_calls {
            None => Err(AgentError::NoToolCall),
            Some(calls) => {
                self.record_tool_calls(context, &calls);
                Ok(calls)
            },
        }
    }

    /// Records the structured answer: a successful `final_answer` result by
    /// `tool` holding the raw argument text, which also becomes the final result.
    pub fn finish_structured(context: &mut ExecutionContext, tool_call_id: &str, raw_arguments: &str)
        ensures
            appended_event(
                *old(context),
                ExecutionContext { final_result: old(context).final_result, ..*final(context) },
                "tool"@,
                seq![
                    ContentItemView::ToolResult {
                        tool_call_id: tool_call_id@,
                        name: "final_answer"@,
                        status: ToolResultStatus::Success,
                        content: raw_arguments@,
                    },
                ],
            ),
            final(context).final_result matches Some(f) && f@ == raw_arguments@,
    {
        let mut content: Vec<ContentItem> = Vec::new();
        content.push(
            ContentItem::ToolResult {
                tool_call_id: String::from_str(tool_call_id),
                name: String::from_str("final_answer"),
                status: ToolResultStatus::Success,
                content: String::from_str(raw_arguments),
            },
        );
        let event = Event::new(context.execution_id.as_str(), "tool", content);
        let ghost before = context.session.events@;
        context.add_event(event);
        context.final_result = Some(String::from_str(raw_arguments));
        proof {
            reveal_strlit("tool");
            assert(context.session.events@.drop_last() =~= before);
            assert(item_views(context.session.events@.last().content@) =~= seq![
                ContentItemView::ToolResult {
                    tool_call_id: tool_call_id@,
                    name: "final_answer"@,
                    status: ToolResultStatus::Success,
                    content: raw_arguments@,
                },
            ]);
        }
    }
}

/// Calls held back for approval come back when the run resumes: the state
/// that `finish_tool_calls` leaves, saved with the session, read back by
/// `get_or_create`, and extended by `begin_run` with the confirmations, makes
/// `take_confirmations` hand back exactly the held-back calls and those
/// confirmations.
pub proof fn law_held_back_calls_come_back(
    before_batch: StateView,
    held_back: Seq<PendingToolCall>,
    saved: crate::session::model::SessionView,
    store_before: Map<Seq<char>, crate::session::model::SessionView>,
    confirmations: Seq<ToolConfirmation>,
)
    requires
        held_back.len() > 0,
        saved.state == (StateView { pending_tool_calls: Some(held_back), ..before_batch }),
    ensures
        ({
            let store_after = store_before.insert(saved.session_id, saved);
            let read_back = store_after[saved.session_id];
            let resumed = StateView { tool_confirmations: Some(confirmations), ..read_back.state };
            &&& store_after.contains_key(saved.session_id)
            &&& resumed.pending_tool_calls == Some(held_back)
            &&& resumed.tool_confirmations == Some(confirmations)
        }),
{
}

/// The answers to the paused calls, one per call in their order.
pub open spec fn paused_call_answers(
    pending: Seq<PendingToolCall>,
    decisions: Seq<ConfirmationDecision>,
    ran: Seq<Option<(ToolResultStatus, String)>>,
) -> Seq<ContentItemView> {
    Seq::new(pending.len(), |i: int| answer_of(pending[i], decisions[i], ran[i]))
}

impl Agent {
    /// The resume step after the paused calls were decided and the approved
    /// ones run: the answers to all paused calls, in their order, recorded as
    /// one event by `tool`.
    pub fn answer_paused_calls(
        context: &mut ExecutionContext,
        pending: &Vec<PendingToolCall>,
        decisions: Vec<ConfirmationDecision>,
        ran: Vec<Option<(ToolResultStatus, String)>>,
    )
        requires
            decisions@.len() == pending@.len(),
            ran@.len() == pending@.len(),
            forall|i: int|
                0 <= i < pending@.len() ==> ((#[trigger] decisions@[i] is Execute) <==> (ran@[i] is Some)),
        ensures
            pending@.len() == 0 ==> *final(context) == *old(context),
            pending@.len() > 0 ==> appended_event(
                *old(context),
                *final(context),
                "tool"@,
                paused_call_answers(pending@, decisions@, ran@),
            ),
    {
        let ghost d = decisions@;
        let ghost o = ran@;
        let results = answer_confirmations(pending, decisions, ran);
        proof {
            assert(item_views(results@) =~= paused_call_answers(pending@, d, o));
        }
        Agent::record_confirmation_results(context, results);
    }
}

/// On resume no paused call is left unanswered: the answers come one per
/// paused call, in their order, each for that call's id and tool; and a call
/// that no confirmation approves is not run and is answered with an error.
pub proof fn law_resume_answers_every_paused_call(
    pending: Seq<PendingToolCall>,
    confirmations: Seq<ToolConfirmation>,
    decisions: Seq<ConfirmationDecision>,
    ran: Seq<Option<(ToolResultStatus, String)>>,
)
    requires
        decisions.len() == pending.len(),
        ran.len() == pending.len(),
        forall|i: int| 0 <= i < pending.len() ==> decision_matches(pending[i], confirmations, #[trigger] decisions[i]),
        forall|i: int| 0 <= i < pending.len() ==> ((#[trigger] decisions[i] is Execute) <==> (ran[i] is Some)),
    ensures
        paused_call_answers(pending, decisions, ran).len() == pending.len(),
        forall|i: int|
            0 <= i < pending.len() ==> (#[trigger] paused_call_answers(pending, decisions, ran)[i] matches ContentItemView::ToolResult {
                tool_call_id,
                name,
                ..
            } && tool_call_id == pending[i].tool_call.tool_call_id@ && name == pending[i].tool_call.name@),
        forall|i: int|
            0 <= i < pending.len() && !(confirmation_for(confirmations, pending[i].tool_call.tool_call_id@) matches Some(c)
                && c.approved) ==> (#[trigger] ran[i]) is None && paused_call_answers(pending, decisions, ran)[i] matches ContentItemView::ToolResult {
                status: ToolResultStatus::Error,
                ..
            },
{
    assert forall|i: int|
        0 <= i < pending.len() && !(confirmation_for(confirmations, pending[i].tool_call.tool_call_id@) matches Some(c)
            && c.approved) implies (#[trigger] ran[i]) is None && paused_call_answers(pending, decisions, ran)[i] matches ContentItemView::ToolResult {
            status: ToolResultStatus::Error,
            ..
        } by {
        assert(decision_matches(pending[i], confirmations, decisions[i]));
        assert(decisions[i] is Reject);
    }
}

/// What happened since the loop last asked what to do.
#[derive(Debug)]
pub enum TurnEvent {
    /// The model replied, with the token usage it reported.
    ModelReplied { usage: Option<LlmUsage>, reply: Option<AssistantReply> },
    /// The tool calls of the last reply were run: their results and the calls
    /// held back for approval.
    ToolsFinished(ToolBatch),
}

/// What the loop does next.
#[derive(Debug)]
pub enum TurnAction {
    /// Prepare the next request and call the model.
    CallModel,
    /// Run these tool calls (already recorded), then report `ToolsFinished`.
    RunTools(Vec<LlmToolCall>),
    /// Stop: these calls wait for a person's approval.
    AwaitConfirmation(Vec<PendingToolCall>),
    /// Stop: the run's answer (already recorded).
    Complete(String),
}

/// `after` holds every event of `before` first, in order.
pub open spec fn history_extends(before: ExecutionContext, after: ExecutionContext) -> bool {
    &&& after.session.events@.len() >= before.session.events@.len()
    &&& after.session.events@.take(before.session.events@.len() as int) == before.session.events@
}

impl Agent {
    /// The first action of a run: call the model, unless the step limit is
    /// already reached.
    pub fn first_action(&self, context: &ExecutionContext) -> (r: Result<TurnAction, AgentError>)
        ensures
            context.current_step < self.max_steps ==> (r matches Ok(TurnAction::CallModel)),
            context.current_step >= self.max_steps ==> (r matches Err(AgentError::MaxStepsExceeded(n))
                && n == self.max_steps),
    {
        match self.check_step_limit(context) {
            Ok(()) => Ok(TurnAction::CallModel),
            Err(e) => Err(e),
        }
    }

    /// One turn of the run loop. A reply is recorded with its usage and either
    /// hands back tool calls to run or ends the run with its answer; finished
    /// tool calls are recorded, and the run stops for approval when calls were
    /// held back, or else moves to the next step and calls the model again
    /// while the step limit allows. The history only grows, and the model is
    /// only called below the step limit.
    pub fn advance(&self, context: &mut ExecutionContext, event: TurnEvent) -> (r: Result<TurnAction, AgentError>)
        requires
            event matches TurnEvent::ModelReplied { usage: Some(u), .. } ==> old(context).usage.can_add(
                u.prompt_tokens,
                u.completion_tokens,
                u.total_tokens,
            ),
            event is ToolsFinished ==> old(context).current_step < u32::MAX,
        ensures
            history_extends(*old(context), *final(context)),
            final(context).execution_id == old(context).execution_id,
            final(context).session.session_id == old(context).session.session_id,
            (r matches Ok(TurnAction::CallModel)) ==> final(context).current_step < self.max_steps,
            match event {
                TurnEvent::ModelReplied { usage, reply } => {
                    &&& final(context).current_step == old(context).current_step
                    &&& final(context).session.state == old(context).session.state
                    &&& match usage {
                        Some(u) => {
                            &&& final(context).usage.prompt_tokens == old(context).usage.prompt_tokens + u.prompt_tokens
                            &&& final(context).usage.completion_tokens == old(context).usage.completion_tokens + u.completion_tokens
                            &&& final(context).usage.total_tokens == old(context).usage.total_tokens + u.total_tokens
                        },
                        None => final(context).usage == old(context).usage,
                    }
                    &&& match reply {
                        None => r matches Err(AgentError::NoChoices)
                            && final(context).session.events == old(context).session.events,
                        Some(rep) => match rep.tool_calls {
                            Some(calls) => {
                                &&& r matches Ok(TurnAction::RunTools(c)) && c@ == calls@
                                &&& final(context).session.events@.len() == old(context).session.events@.len() + 1
                                &&& final(context).session.events@.last().author@ == "agent"@
                                &&& final(context).session.events@.last().execution_id@ == old(context).execution_id@
                                &&& item_views(final(context).session.events@.last().content@) == recorded_calls(calls@)
                                &&& final(context).final_result == old(context).final_result
                            },
                            None => match rep.content {
                                None => r matches Err(AgentError::NoFinalContent)
                                    && final(context).session.events == old(context).session.events,
                                Some(text) => {
                                    &&& r matches Ok(TurnAction::Complete(a)) && a@ == text@
                                    &&& final(context).final_result matches Some(f) && f@ == text@
                                    &&& final(context).session.events@.len() == old(context).session.events@.len() + 1
                                    &&& final(context).session.events@.last().author@ == "agent"@
                                    &&& final(context).session.events@.last().execution_id@ == old(context).execution_id@
                                    &&& item_views(final(context).session.events@.last().content@) == seq![
                                        ContentItemView::Message { role: "assistant"@, content: text@ },
                                    ]
                                },
                            },
                        },
                    }
                },
                TurnEvent::ToolsFinished(batch) => {
                    &&& final(context).session.events@.len() == old(context).session.events@.len() + 1
                    &&& final(context).session.events@.last().author@ == "tool"@
                    &&& final(context).session.events@.last().execution_id@ == old(context).execution_id@
                    &&& final(context).session.events@.last().content@ == batch.results@
                    &&& final(context).usage == old(context).usage
                    &&& final(context).final_result == old(context).final_result
                    &&& final(context).session.state@ == (if batch.pending@.len() > 0 {
                        StateView { pending_tool_calls: Some(batch.pending@), ..old(context).session.state@ }
                    } else {
                        old(context).session.state@
                    })
                    &&& match final(context).session.state@.pending_tool_calls {
                        Some(p) => r matches Ok(TurnAction::AwaitConfirmation(v)) && v@ == p
                            && final(context).current_step == old(context).current_step,
                        None => {
                            &&& final(context).current_step == old(context).current_step + 1
                            &&& final(context).current_step < self.max_steps ==> (r matches Ok(
                                TurnAction::CallModel,
                            ))
                            &&& final(context).current_step >= self.max_steps ==> (r matches Err(
                                AgentError::MaxStepsExceeded(n),
                            ) && n == self.max_steps)
                        },
                    }
                },
            },
    {
        match event {
            TurnEvent::ModelReplied { usage, reply } => {
                Agent::record_usage(context, usage);
                let out = self.handle_reply(context, reply);
                proof {
                    assert(context.session.events@.take(old(context).session.events@.len() as int)
                        =~= old(context).session.events@);
                }
                match out {
                    Ok(ReplyOutcome::RunTools(calls)) => Ok(TurnAction::RunTools(calls)),
                    Ok(ReplyOutcome::Answer(a)) => Ok(TurnAction::Complete(a)),
                    Err(e) => Err(e),
                }
            },
            TurnEvent::ToolsFinished(batch) => {
                self.finish_tool_calls(context, batch);
                proof {
                    assert(context.session.events@.take(old(context).session.events@.len() as int)
                        =~= old(context).session.events@);
                }
                match Agent::pending_after_tools(context) {
                    Some(p) => Ok(TurnAction::AwaitConfirmation(p)),
                    None => {
                        context.increment_step();
                        self.first_action(context)
                    },
                }
            },
        }
    }
}

/// What a run that must end with a structured answer does next.
#[derive(Debug)]
pub enum StructuredAction {
    /// Prepare the next request and call the model.
    CallModel,
    /// Run these tool calls (already recorded), then report `ToolsFinished`.
    RunTools(Vec<LlmToolCall>),
    /// The model called `final_answer`: read the answer from the raw argument
    /// text, then record it with `finish_structured`.
    FinalAnswer { id: String, raw_arguments: String },
}

impl Agent {
    /// One turn of a run that must end with a structured answer. A reply is
    /// recorded with its usage and must call a tool; a call to `final_answer`
    /// ends the loop, otherwise the calls are handed back to run. Finished
    /// tool calls are recorded and the run moves to the next step, calling the
    /// model again while the step limit allows. The history only grows, every
    /// new event belongs to the run, and the model is only called below the
    /// step limit.
    pub fn advance_structured(&self, context: &mut ExecutionContext, event: TurnEvent) -> (r: Result<
        StructuredAction,
        AgentError,
    >)
        requires
            event matches TurnEvent::ModelReplied { usage: Some(u), .. } ==> old(context).usage.can_add(
                u.prompt_tokens,
                u.completion_tokens,
                u.total_tokens,
            ),
            event is ToolsFinished ==> old(context).current_step < u32::MAX,
        ensures
            history_extends(*old(context), *final(context)),
            final(context).execution_id == old(context).execution_id,
            final(context).session.session_id == old(context).session.session_id,
            final(context).final_result == old(context).final_result,
            (r matches Ok(StructuredAction::CallModel)) ==> final(context).current_step < self.max_steps,
            match event {
                TurnEvent::ModelReplied { usage, reply } => {
                    &&& final(context).current_step == old(context).current_step
                    &&& final(context).session.state == old(context).session.state
                    &&& match usage {
                        Some(u) => {
                            &&& final(context).usage.prompt_tokens == old(context).usage.prompt_tokens + u.prompt_tokens
                            &&& final(context).usage.completion_tokens == old(context).usage.completion_tokens + u.completion_tokens
                            &&& final(context).usage.total_tokens == old(context).usage.total_tokens + u.total_tokens
                        },
                        None => final(context).usage == old(context).usage,
                    }
                    &&& match reply {
                        None => r matches Err(AgentError::NoChoices)
                            && final(context).session.events == old(context).session.events,
                        Some(rep) => match rep.tool_calls {
                            None => r matches Err(AgentError::NoToolCall)
                                && final(context).session.events == old(context).session.events,
                            Some(calls) => {
                                &&& final(context).session.events@.len() == old(context).session.events@.len() + 1
                                &&& final(context).session.events@.last().author@ == "agent"@
                                &&& final(context).session.events@.last().execution_id@ == old(context).execution_id@
                                &&& item_views(final(context).session.events@.last().content@) == recorded_calls(calls@)
                                &&& match r {
                                    Ok(StructuredAction::FinalAnswer { id, raw_arguments }) => exists|i: int|
                                        is_final_answer_at(calls@, i) && (#[trigger] calls@[i] matches LlmToolCall::Function {
                                            id: i_id,
                                            arguments: i_args,
                                            ..
                                        } && i_id@ == id@ && i_args@ == raw_arguments@),
                                    Ok(StructuredAction::RunTools(c)) => c@ == calls@ && forall|i: int|
                                        0 <= i < calls@.len() ==> !is_final_answer_at(calls@, i),
                                    _ => false,
                                }
                            },
                        },
                    }
                },
                TurnEvent::ToolsFinished(batch) => {
                    &&& final(context).session.events@.len() == old(context).session.events@.len() + 1
                    &&& final(context).session.events@.last().author@ == "tool"@
                    &&& final(context).session.events@.last().execution_id@ == old(context).execution_id@
                    &&& final(context).session.events@.last().content@ == batch.results@
                    &&& final(context).usage == old(context).usage
                    &&& final(context).session.state@ == (if batch.pending@.len() > 0 {
                        StateView { pending_tool_calls: Some(batch.pending@), ..old(context).session.state@ }
                    } else {
                        old(context).session.state@
                    })
                    &&& final(context).current_step == old(context).current_step + 1
                    &&& final(context).current_step < self.max_steps ==> (r matches Ok(
                        StructuredAction::CallModel,
                    ))
                    &&& final(context).current_step >= self.max_steps ==> (r matches Err(
                        AgentError::MaxStepsExceeded(n),
                    ) && n == self.max_steps)
                },
            },
    {
        match event {
            TurnEvent::ModelReplied { usage, reply } => {
                Agent::record_usage(context, usage);
                let out = self.handle_structured_reply(context, reply);
                proof {
                    assert(context.session.events@.take(old(context).session.events@.len() as int)
                        =~= old(context).session.events@);
                }
                match out {
                    Ok(calls) => match Agent::find_final_answer(&calls) {
                        Some((id, raw_arguments)) => Ok(StructuredAction::FinalAnswer { id, raw_arguments }),
                        None => Ok(StructuredAction::RunTools(calls)),
                    },
                    Err(e) => Err(e),
                }
            },
            TurnEvent::ToolsFinished(batch) => {
                self.finish_tool_calls(context, batch);
                proof {
                    assert(context.session.events@.take(old(context).session.events@.len() as int)
                        =~= old(context).session.events@);
                }
                context.increment_step();
                match self.check_step_limit(context) {
                    Ok(()) => Ok(StructuredAction::CallModel),
                    Err(e) => Err(e),
                }
            },
        }
    }
}

/// The model is called at most `max_steps` times in a run: the steps at which
/// successive model calls happen start at 0, go up by one from each call to
/// the next, and each lies below the limit.
pub proof fn law_model_calls_bounded(steps_at_calls: Seq<u32>, max_steps: u32)
    requires
        steps_at_calls.len() > 0 ==> steps_at_calls[0] == 0,
        forall|i: int|
            0 <= i < steps_at_calls.len() - 1 ==> #[trigger] steps_at_calls[i + 1] == steps_at_calls[i] + 1,
        forall|i: int| 0 <= i < steps_at_calls.len() ==> #[trigger] steps_at_calls[i] < max_steps,
    ensures
        steps_at_calls.len() <= max_steps,
{
    if steps_at_calls.len() > 0 {
        let n = steps_at_calls.len() as int;
        assert forall|i: int| 0 <= i < n implies #[trigger] steps_at_calls[i] == i by {
            lemma_steps_count_up(steps_at_calls, i);
        }
        assert(steps_at_calls[n - 1] < max_steps);
    }
}

proof fn lemma_steps_count_up(s: Seq<u32>, i: int)
    requires
        0 <= i < s.len(),
        s[0] == 0,
        forall|j: int| 0 <= j < s.len() - 1 ==> #[trigger] s[j + 1] == s[j] + 1,
    ensures
        s[i] == i,
    decreases i,
{
    if i > 0 {
        lemma_steps_count_up(s, i - 1);
        assert(s[(i - 1) + 1] == s[i - 1] + 1);
    }
}

impl AgentResult {
    /// A run that stopped to wait for approval of `pending`.
    pub fn pending(context: ExecutionContext, pending: Vec<PendingToolCall>) -> (r: Self)
        ensures
            r.output is None,
            r.status == AgentStatus::PendingConfirmation,
            r.pending_tool_calls@ == pending@,
            r.context == context,
    {
        AgentResult { output: None, context, status: AgentStatus::PendingConfirmation, pending_tool_calls: pending }
    }

    /// A run that finished with `answer`.
    pub fn complete(context: ExecutionContext, answer: String) -> (r: Self)
        ensures
            r.output == Some(answer),
            r.status == AgentStatus::Complete,
            r.pending_tool_calls@.len() == 0,
            r.context == context,
    {
        AgentResult { output: Some(answer), context, status: AgentStatus::Complete, pending_tool_calls: Vec::new() }
    }
}

} // verus!
