//! The request assembled for one model call.

use crate::agent::event::{ContentItem, ToolCall};
use crate::agent::runtime::Agent;
use crate::text::{str_equal, views};
use vstd::prelude::*;

verus! {

/// Extra system instructions and the conversation content for one model call.
#[derive(Debug, Clone)]
pub struct LlmRequest {
    pub instructions: Vec<String>,
    pub contents: Vec<ContentItem>,
}

impl LlmRequest {
    /// An empty request.
    pub fn new() -> (r: Self)
        ensures
            r.instructions@.len() == 0,
            r.contents@.len() == 0,
    {
        LlmRequest { instructions: Vec::new(), contents: Vec::new() }
    }

    /// Adds one system instruction after the existing ones.
    pub fn append_instructions(&mut self, instruction: String)
        ensures
            final(self).instructions@ == old(self).instructions@.push(instruction),
            final(self).contents@ == old(self).contents@,
    {
        self.instructions.push(instruction);
    }

    /// The instruction texts.
    pub open spec fn instruction_views(self) -> Seq<Seq<char>> {
        views(self.instructions@)
    }
}

/// A tool call as it is sent back to the model inside an assistant message.
#[derive(Debug, Clone)]
pub struct ToolCallRequest {
    pub id: String,
    pub name: String,
    /// The argument text of a function call, or the input of a custom tool call.
    pub arguments: String,
    /// Whether this is a call of a custom tool rather than of a function.
    pub custom: bool,
}

/// One chat message in the form the model API takes.
#[derive(Debug, Clone)]
#[allow(inconsistent_fields)]
pub enum ChatMessage {
    System(String),
    User(String),
    Assistant { content: Option<String>, tool_calls: Vec<ToolCallRequest> },
    Tool { tool_call_id: String, content: String },
}

/// The abstract value of a chat message; a tool call is (id, name, arguments
/// or input, whether it is a custom tool call).
#[allow(inconsistent_fields)]
pub enum ChatMessageView {
    System(Seq<char>),
    User(Seq<char>),
    Assistant { content: Option<Seq<char>>, tool_calls: Seq<(Seq<char>, Seq<char>, Seq<char>, bool)> },
    Tool { tool_call_id: Seq<char>, content: Seq<char> },
}

impl View for ToolCallRequest {
    type V = (Seq<char>, Seq<char>, Seq<char>, bool);

    open spec fn view(&self) -> (Seq<char>, Seq<char>, Seq<char>, bool) {
        (self.id@, self.name@, self.arguments@, self.custom)
    }
}

impl View for ChatMessage {
    type V = ChatMessageView;

    open spec fn view(&self) -> ChatMessageView {
        match self {
            ChatMessage::System(s) => ChatMessageView::System(s@),
            ChatMessage::User(s) => ChatMessageView::User(s@),
            ChatMessage::Assistant { content, tool_calls } => ChatMessageView::Assistant {
                content: match content {
                    Some(c) => Some(c@),
                    None => None,
                },
                tool_calls: tool_calls@.map_values(|t: ToolCallRequest| t@),
            },
            ChatMessage::Tool { tool_call_id, content } => ChatMessageView::Tool {
                tool_call_id: tool_call_id@,
                content: content@,
            },
        }
    }
}

/// The views of a list of messages.
pub open spec fn message_views(v: Seq<ChatMessage>) -> Seq<ChatMessageView> {
    v.map_values(|m: ChatMessage| m@)
}

/// The messages after adding one content item: a user message for a message
/// with role `user`, an assistant message for any other role, a tool call
/// joined to the last message when that is an assistant message (else a new
/// assistant message holding just the call), and a tool message per result.
pub open spec fn add_item(msgs: Seq<ChatMessageView>, item: ContentItem) -> Seq<ChatMessageView> {
    match item {
        ContentItem::Message { role, content } => if role@ == "user"@ {
            msgs.push(ChatMessageView::User(content@))
        } else {
            msgs.push(ChatMessageView::Assistant { content: Some(content@), tool_calls: Seq::empty() })
        },
        ContentItem::ToolCall(c) => {
            let call = (c.tool_call_id@, c.name@, c.arguments@, false);
            if msgs.len() > 0 && msgs.last() is Assistant {
                msgs.update(
                    msgs.len() - 1,
                    ChatMessageView::Assistant {
                        content: msgs.last()->Assistant_content,
                        tool_calls: msgs.last()->Assistant_tool_calls.push(call),
                    },
                )
            } else {
                msgs.push(ChatMessageView::Assistant { content: None, tool_calls: seq![call] })
            }
        },
        ContentItem::ToolResult { tool_call_id, content, .. } => msgs.push(
            ChatMessageView::Tool { tool_call_id: tool_call_id@, content: content@ },
        ),
    }
}

/// The messages after adding the items one by one to `msgs`.
pub open spec fn add_items(msgs: Seq<ChatMessageView>, items: Seq<ContentItem>) -> Seq<ChatMessageView>
    decreases items.len(),
{
    if items.len() == 0 {
        msgs
    } else {
        add_item(add_items(msgs, items.drop_last()), items.last())
    }
}

/// The system messages: the agent's instructions, if any, then the request's.
pub open spec fn system_messages(agent_instructions: Option<Seq<char>>, extra: Seq<Seq<char>>) -> Seq<
    ChatMessageView,
> {
    let head = match agent_instructions {
        Some(s) => seq![ChatMessageView::System(s)],
        None => Seq::empty(),
    };
    head + extra.map_values(|s: Seq<char>| ChatMessageView::System(s))
}

/// Adds one content item to the message list.
fn push_item(messages: &mut Vec<ChatMessage>, item: &ContentItem)
    ensures
        message_views(final(messages)@) == add_item(message_views(old(messages)@), *item),
{
    let ghost before = message_views(messages@);
    match item {
        ContentItem::Message { role, content } => {
            if str_equal(role.as_str(), "user") {
                messages.push(ChatMessage::User(content.clone()));
                proof {
                    assert(message_views(messages@) =~= add_item(before, *item));
                }
            } else {
                let empty: Vec<ToolCallRequest> = Vec::new();
                proof {
                    assert(empty@.map_values(|t: ToolCallRequest| t@) =~= Seq::empty());
                }
                messages.push(ChatMessage::Assistant { content: Some(content.clone()), tool_calls: empty });
                proof {
                    assert(message_views(messages@) =~= add_item(before, *item));
                }
            }
        },
        ContentItem::ToolCall(c) => {
            let call = ToolCallRequest {
                id: c.tool_call_id.clone(),
                name: c.name.clone(),
                arguments: c.arguments.clone(),
                custom: false,
            };
            let last_is_assistant = messages.len() > 0 && match &messages[messages.len() - 1] {
                ChatMessage::Assistant { .. } => true,
                _ => false,
            };
            if last_is_assistant {
                let last = messages.pop();
                match last {
                    Some(ChatMessage::Assistant { content, tool_calls }) => {
                        let ghost old_calls = tool_calls@;
                        let mut calls = tool_calls;
                        calls.push(call);
                        messages.push(ChatMessage::Assistant { content, tool_calls: calls });
                        proof {
                            assert(calls@.map_values(|t: ToolCallRequest| t@) =~= old_calls.map_values(
                                |t: ToolCallRequest| t@,
                            ).push((c.tool_call_id@, c.name@, c.arguments@, false)));
                            assert(message_views(messages@) =~= add_item(before, *item));
                        }
                    },
                    _ => {
                        proof {
                            assert(false);
                        }
                    },
                }
            } else {
                let mut calls: Vec<ToolCallRequest> = Vec::new();
                calls.push(call);
                messages.push(ChatMessage::Assistant { content: None, tool_calls: calls });
                proof {
                    assert(calls@.map_values(|t: ToolCallRequest| t@) =~= seq![
                        (c.tool_call_id@, c.name@, c.arguments@, false),
                    ]);
                    assert(message_views(messages@) =~= add_item(before, *item));
                }
            }
        },
        ContentItem::ToolResult { tool_call_id, content, .. } => {
            messages.push(ChatMessage::Tool { tool_call_id: tool_call_id.clone(), content: content.clone() });
            proof {
                assert(message_views(messages@) =~= add_item(before, *item));
            }
        },
    }
}

impl Agent {
    /// The chat messages for a request: the agent's instructions and the
    /// request's instructions as system messages, then the content items, with
    /// consecutive tool calls gathered into the preceding assistant message.
    pub fn build_messages(&self, request: &LlmRequest) -> (messages: Vec<ChatMessage>)
        ensures
            message_views(messages@) == add_items(
                system_messages(
                    match &self.instructions {
                        Some(s) => Some(s@),
                        None => None,
                    },
                    request.instruction_views(),
                ),
                request.contents@,
            ),
    {
        let mut messages: Vec<ChatMessage> = Vec::new();
        match &self.instructions {
            Some(system) => {
                messages.push(ChatMessage::System(system.clone()));
            },
            None => {},
        }
        let ghost head = message_views(messages@);
        let mut i: usize = 0;
        while i < request.instructions.len()
            invariant
                i <= request.instructions@.len(),
                message_views(messages@) == head + request.instruction_views().take(i as int).map_values(
                    |s: Seq<char>| ChatMessageView::System(s),
                ),
            decreases request.instructions.len() - i,
        {
            let ghost prev = messages@;
            messages.push(ChatMessage::System(request.instructions[i].clone()));
            proof {
                assert(request.instruction_views().take(i + 1) =~= request.instruction_views().take(i as int).push(request.instructions@[i as int]@));
                assert(message_views(messages@) =~= message_views(prev).push(ChatMessageView::System(request.instructions@[i as int]@)));
                assert(message_views(messages@) =~= head + request.instruction_views().take(i + 1).map_values(
                    |s: Seq<char>| ChatMessageView::System(s),
                ));
            }
            i = i + 1;
        }
        let ghost prefix = message_views(messages@);
        proof {
            assert(request.instruction_views().take(i as int) =~= request.instruction_views());
            assert(prefix =~= system_messages(
                match &self.instructions {
                    Some(s) => Some(s@),
                    None => None,
                },
                request.instruction_views(),
            ));
        }
        let mut j: usize = 0;
        while j < request.contents.len()
            invariant
                j <= request.contents@.len(),
                message_views(messages@) == add_items(prefix, request.contents@.take(j as int)),
            decreases request.contents.len() - j,
        {
            push_item(&mut messages, &request.contents[j]);
            proof {
                assert(request.contents@.take(j + 1).drop_last() =~= request.contents@.take(j as int));
            }
            j = j + 1;
        }
        proof {
            assert(request.contents@.take(j as int) =~= request.contents@);
        }
        messages
    }
}

/// How each content item lands in the messages: a user message as a user
/// message and any other message as an assistant message with its text; a
/// tool result as a tool message for its call; a tool call joins the
/// assistant message just before it (keeping that message's text and earlier
/// calls) or else opens a new assistant message without text. Messages before
/// the item are never changed.
pub proof fn law_each_item_becomes_its_message(msgs: Seq<ChatMessageView>, item: ContentItem)
    ensures
        item matches ContentItem::Message { role, content } ==> add_item(msgs, item) == msgs.push(
            if role@ == "user"@ {
                ChatMessageView::User(content@)
            } else {
                ChatMessageView::Assistant { content: Some(content@), tool_calls: Seq::empty() }
            },
        ),
        item matches ContentItem::ToolResult { tool_call_id, content, .. } ==> add_item(msgs, item)
            == msgs.push(ChatMessageView::Tool { tool_call_id: tool_call_id@, content: content@ }),
        item matches ContentItem::ToolCall(c) ==> match msgs.last() {
            ChatMessageView::Assistant { content, tool_calls } => msgs.len() > 0 ==> add_item(msgs, item)
                == msgs.drop_last().push(
                ChatMessageView::Assistant {
                    content,
                    tool_calls: tool_calls.push((c.tool_call_id@, c.name@, c.arguments@, false)),
                },
            ),
            _ => add_item(msgs, item) == msgs.push(
                ChatMessageView::Assistant {
                    content: None,
                    tool_calls: seq![(c.tool_call_id@, c.name@, c.arguments@, false)],
                },
            ),
        },
        item matches ContentItem::ToolCall(c) ==> msgs.len() == 0 ==> add_item(msgs, item) == seq![
            ChatMessageView::Assistant {
                content: None,
                tool_calls: seq![(c.tool_call_id@, c.name@, c.arguments@, false)],
            },
        ],
        forall|k: int| 0 <= k < msgs.len() - 1 ==> #[trigger] add_item(msgs, item)[k] == msgs[k],
{
    match item {
        ContentItem::ToolCall(c) => {
            if msgs.len() > 0 && msgs.last() is Assistant {
                assert(add_item(msgs, item) =~= msgs.drop_last().push(
                    ChatMessageView::Assistant {
                        content: msgs.last()->Assistant_content,
                        tool_calls: msgs.last()->Assistant_tool_calls.push(
                            (c.tool_call_id@, c.name@, c.arguments@, false),
                        ),
                    },
                ));
            }
            if msgs.len() == 0 {
                assert(msgs.push(
                    ChatMessageView::Assistant {
                        content: None,
                        tool_calls: seq![(c.tool_call_id@, c.name@, c.arguments@, false)],
                    },
                ) =~= seq![
                    ChatMessageView::Assistant {
                        content: None,
                        tool_calls: seq![(c.tool_call_id@, c.name@, c.arguments@, false)],
                    },
                ]);
            }
        },
        _ => {},
    }
}

} // verus!
