//! A one-shot completion that may take one round of calculator calls: the
//! messages sent, and what is done with each reply.

use crate::agent::llm_request::{message_views, ChatMessage, ChatMessageView, ToolCallRequest};
use crate::agent::runtime::AssistantReply;
use crate::agent::tool_exec::LlmToolCall;
use crate::text::str_equal;
use vstd::prelude::*;
use vstd::string::*;

verus! {

/// Why a completion gave no text.
#[derive(Debug, Clone, Copy, PartialEq, Eq, Structural)]
pub enum CompletionError {
    NoChoices,
    NoContent,
}

impl CompletionError {
    /// The message of the error.
    pub fn message(&self) -> (r: &'static str)
        ensures
            r@ == match self {
                CompletionError::NoChoices => "No choices in response"@,
                CompletionError::NoContent => "No content in response"@,
            },
    {
        match self {
            CompletionError::NoChoices => "No choices in response",
            CompletionError::NoContent => "No content in response",
        }
    }
}

/// What follows the first reply.
#[derive(Debug)]
pub enum CompletionStep {
    /// Run these calculator calls, given as (call id, argument text), add a
    /// tool message for each, and ask again.
    RunCalculator(Vec<(String, String)>),
    /// The reply's text is the answer.
    Done(String),
}

/// The messages of the first request: the system prompt, if any, then the
/// user's prompt.
pub open spec fn opening_messages(system: Option<Seq<char>>, prompt: Seq<char>) -> Seq<ChatMessageView> {
    match system {
        Some(s) => seq![ChatMessageView::System(s), ChatMessageView::User(prompt)],
        None => seq![ChatMessageView::User(prompt)],
    }
}

/// The calls as they are sent back in the assistant message, in order:
/// (id, name, argument text or input, whether the call is of a custom tool).
pub open spec fn sent_calls(calls: Seq<LlmToolCall>) -> Seq<(Seq<char>, Seq<char>, Seq<char>, bool)>
    decreases calls.len(),
{
    if calls.len() == 0 {
        Seq::empty()
    } else {
        match calls.last() {
            LlmToolCall::Function { id, name, arguments } => sent_calls(calls.drop_last()).push(
                (id@, name@, arguments@, false),
            ),
            LlmToolCall::Custom { id, name, input } => sent_calls(calls.drop_last()).push(
                (id@, name@, input@, true),
            ),
        }
    }
}

/// The (id, argument text) of the calls to `calculator`, in order.
pub open spec fn calculator_calls(calls: Seq<LlmToolCall>) -> Seq<(Seq<char>, Seq<char>)>
    decreases calls.len(),
{
    if calls.len() == 0 {
        Seq::empty()
    } else {
        match calls.last() {
            LlmToolCall::Function { id, name, arguments } => if name@ == "calculator"@ {
                calculator_calls(calls.drop_last()).push((id@, arguments@))
            } else {
                calculator_calls(calls.drop_last())
            },
            LlmToolCall::Custom { .. } => calculator_calls(calls.drop_last()),
        }
    }
}

/// The messages of the first request.
pub fn opening_request(system: Option<&str>, prompt: &str) -> (m: Vec<ChatMessage>)
    ensures
        message_views(m@) == opening_messages(
            match system {
                Some(s) => Some(s@),
                None => None,
            },
            prompt@,
        ),
{
    let mut m: Vec<ChatMessage> = Vec::new();
    match system {
        Some(s) => m.push(ChatMessage::System(String::from_str(s))),
        None => {},
    }
    m.push(ChatMessage::User(String::from_str(prompt)));
    proof {
        assert(message_views(m@) =~= opening_messages(
            match system {
                Some(s) => Some(s@),
                None => None,
            },
            prompt@,
        ));
    }
    m
}

/// Acts on the first reply. Without a choice the completion fails; with tool
/// calls, an assistant message carrying all its tool calls is added and the
/// calculator calls are handed back to run; otherwise the reply's text is the
/// answer, and a reply without text fails.
pub fn first_reply_step(messages: &mut Vec<ChatMessage>, reply: Option<AssistantReply>) -> (r: Result<
    CompletionStep,
    CompletionError,
>)
    ensures
        match reply {
            None => r == Err::<CompletionStep, CompletionError>(CompletionError::NoChoices)
                && final(messages)@ == old(messages)@,
            Some(rep) => match rep.tool_calls {
                Some(calls) => {
                    &&& message_views(final(messages)@) == message_views(old(messages)@).push(
                        ChatMessageView::Assistant { content: None, tool_calls: sent_calls(calls@) },
                    )
                    &&& r matches Ok(CompletionStep::RunCalculator(c)) && c@.map_values(
                        |p: (String, String)| (p.0@, p.1@),
                    ) == calculator_calls(calls@)
                },
                None => final(messages)@ == old(messages)@ && match rep.content {
                    Some(text) => r matches Ok(CompletionStep::Done(t)) && t == text,
                    None => r == Err::<CompletionStep, CompletionError>(CompletionError::NoContent),
                },
            },
        },
{
    let rep = match reply {
        Some(rep) => rep,
        None => {
            return Err(CompletionError::NoChoices);
        },
    };
    match rep.tool_calls {
        None => match rep.content {
            Some(text) => Ok(CompletionStep::Done(text)),
            None => Err(CompletionError::NoContent),
        },
        Some(calls) => {
            let mut requests: Vec<ToolCallRequest> = Vec::new();
            let mut calculator: Vec<(String, String)> = Vec::new();
            let mut i: usize = 0;
            while i < calls.len()
                invariant
                    i <= calls@.len(),
                    requests@.map_values(|t: ToolCallRequest| t@) == sent_calls(calls@.take(i as int)),
                    calculator@.map_values(|p: (String, String)| (p.0@, p.1@)) == calculator_calls(
                        calls@.take(i as int),
                    ),
                decreases calls.len() - i,
            {
                proof {
                    assert(calls@.take(i + 1).drop_last() =~= calls@.take(i as int));
                }
                let ghost req_before = requests@.map_values(|t: ToolCallRequest| t@);
                let ghost calc_before = calculator@.map_values(|p: (String, String)| (p.0@, p.1@));
                match &calls[i] {
                    LlmToolCall::Function { id, name, arguments } => {
                        requests.push(
                            ToolCallRequest {
                                id: id.clone(),
                                name: name.clone(),
                                arguments: arguments.clone(),
                                custom: false,
                            },
                        );
                        proof {
                            assert(requests@.map_values(|t: ToolCallRequest| t@) =~= req_before.push(
                                (id@, name@, arguments@, false),
                            ));
                        }
                        if str_equal(name.as_str(), "calculator") {
                            calculator.push((id.clone(), arguments.clone()));
                            proof {
                                assert(calculator@.map_values(|p: (String, String)| (p.0@, p.1@))
                                    =~= calc_before.push((id@, arguments@)));
                            }
                        }
                    },
                    LlmToolCall::Custom { id, name, input } => {
                        requests.push(
                            ToolCallRequest { id: id.clone(), name: name.clone(), arguments: input.clone(), custom: true },
                        );
                        proof {
                            assert(requests@.map_values(|t: ToolCallRequest| t@) =~= req_before.push(
                                (id@, name@, input@, true),
                            ));
                            assert(calculator@.map_values(|p: (String, String)| (p.0@, p.1@)) =~= calc_before);
                        }
                    },
                }
                i = i + 1;
            }
            proof {
                assert(calls@.take(i as int) =~= calls@);
            }
            let ghost before = message_views(messages@);
            messages.push(ChatMessage::Assistant { content: None, tool_calls: requests });
            proof {
                assert(message_views(messages@) =~= before.push(
                    ChatMessageView::Assistant { content: None, tool_calls: sent_calls(calls@) },
                ));
            }
            Ok(CompletionStep::RunCalculator(calculator))
        },
    }
}

/// The answer in the reply to the second request: its text, or a failure
/// when there is no choice or no text.
pub fn final_reply_text(reply: Option<AssistantReply>) -> (r: Result<String, CompletionError>)
    ensures
        match reply {
            Some(rep) => match rep.content {
                Some(text) => r == Ok::<String, CompletionError>(text),
                None => r == Err::<String, CompletionError>(CompletionError::NoContent),
            },
            None => r == Err::<String, CompletionError>(CompletionError::NoContent),
        },
{
    match reply {
        Some(rep) => match rep.content {
            Some(text) => Ok(text),
            None => Err(CompletionError::NoContent),
        },
        None => Err(CompletionError::NoContent),
    }
}

} // verus!
