//! The items an agent run records: messages, tool calls and tool results.

use crate::clock::{new_uuid_string, unix_timestamp_now};
use crate::json::{json_canonical, parse_canonical};
use vstd::prelude::*;
use vstd::string::*;

verus! {

/// Whether a tool produced its output or failed.
#[derive(Debug, Clone, Copy, PartialEq, Eq, Structural)]
pub enum ToolResultStatus {
    Success,
    Error,
}

/// A tool call the model asked for. `arguments` is the compact JSON text of the
/// arguments, as serde_json writes the parsed value (`null` when the model's
/// text did not parse).
#[derive(Debug, Clone)]
pub struct ToolCall {
    pub tool_call_id: String,
    pub name: String,
    pub arguments: String,
}

/// One piece of conversation content.
#[derive(Debug, Clone)]
pub enum ContentItem {
    Message { role: String, content: String },
    ToolCall(ToolCall),
    ToolResult { tool_call_id: String, name: String, status: ToolResultStatus, content: String },
}

/// A batch of content produced by one author during one execution.
#[derive(Debug, Clone)]
pub struct Event {
    pub id: String,
    pub execution_id: String,
    pub timestamp: i64,
    pub author: String,
    pub content: Vec<ContentItem>,
}

/// The abstract value of a content item.
pub enum ContentItemView {
    Message { role: Seq<char>, content: Seq<char> },
    ToolCall { tool_call_id: Seq<char>, name: Seq<char>, arguments: Seq<char> },
    ToolResult {
        tool_call_id: Seq<char>,
        name: Seq<char>,
        status: ToolResultStatus,
        content: Seq<char>,
    },
}

impl View for ContentItem {
    type V = ContentItemView;

    open spec fn view(&self) -> ContentItemView {
        match self {
            ContentItem::Message { role, content } => ContentItemView::Message {
                role: role@,
                content: content@,
            },
            ContentItem::ToolCall(c) => ContentItemView::ToolCall {
                tool_call_id: c.tool_call_id@,
                name: c.name@,
                arguments: c.arguments@,
            },
            ContentItem::ToolResult { tool_call_id, name, status, content } => {
                ContentItemView::ToolResult {
                    tool_call_id: tool_call_id@,
                    name: name@,
                    status: *status,
                    content: content@,
                }
            },
        }
    }
}

/// The views of a list of content items.
pub open spec fn item_views(items: Seq<ContentItem>) -> Seq<ContentItemView> {
    items.map_values(|i: ContentItem| i@)
}

/// The text the library keeps for tool arguments the model sent as `raw`: the
/// compact JSON of the parsed value, or `null` when `raw` is not JSON.
pub open spec fn canonical_arguments_of(raw: Seq<char>) -> Seq<char> {
    match json_canonical(raw) {
        Some(t) => t,
        None => "null"@,
    }
}

/// Normalises the argument text of a tool call as the runtime records it.
pub fn canonical_arguments(raw: &str) -> (r: String)
    ensures
        r@ == canonical_arguments_of(raw@),
{
    match parse_canonical(raw) {
        Some(t) => t,
        None => String::from_str("null"),
    }
}

impl ToolCall {
    /// A field-by-field copy.
    pub fn duplicate(&self) -> (r: Self)
        ensures
            r == *self,
    {
        ToolCall {
            tool_call_id: self.tool_call_id.clone(),
            name: self.name.clone(),
            arguments: self.arguments.clone(),
        }
    }
}

impl ContentItem {
    /// A field-by-field copy.
    pub fn duplicate(&self) -> (r: Self)
        ensures
            r == *self,
    {
        match self {
            ContentItem::Message { role, content } => ContentItem::Message {
                role: role.clone(),
                content: content.clone(),
            },
            ContentItem::ToolCall(call) => ContentItem::ToolCall(call.duplicate()),
            ContentItem::ToolResult { tool_call_id, name, status, content } => {
                ContentItem::ToolResult {
                    tool_call_id: tool_call_id.clone(),
                    name: name.clone(),
                    status: *status,
                    content: content.clone(),
                }
            },
        }
    }

    /// Whether this is a message with the given role.
    pub open spec fn is_message_with_role(self, r: Seq<char>) -> bool {
        self matches ContentItem::Message { role, .. } && role@ == r
    }

    /// Whether this is a user message.
    pub open spec fn is_user_message(self) -> bool {
        self.is_message_with_role("user"@)
    }
}

/// An element-wise copy of a list of items.
pub fn duplicate_items(items: &Vec<ContentItem>) -> (r: Vec<ContentItem>)
    ensures
        r@ == items@,
{
    let mut out: Vec<ContentItem> = Vec::new();
    let mut i: usize = 0;
    while i < items.len()
        invariant
            i <= items.len(),
            out@ == items@.take(i as int),
        decreases items.len() - i,
    {
        out.push(items[i].duplicate());
        proof {
            assert(items@.take(i + 1) =~= items@.take(i as int).push(items@[i as int]));
        }
        i = i + 1;
    }
    proof {
        assert(items@.take(items.len() as int) =~= items@);
    }
    out
}

/// The abstract value of an event.
pub struct EventView {
    pub id: Seq<char>,
    pub execution_id: Seq<char>,
    pub timestamp: i64,
    pub author: Seq<char>,
    pub content: Seq<ContentItem>,
}

impl View for Event {
    type V = EventView;

    open spec fn view(&self) -> EventView {
        EventView {
            id: self.id@,
            execution_id: self.execution_id@,
            timestamp: self.timestamp,
            author: self.author@,
            content: self.content@,
        }
    }
}

/// The views of a list of events.
pub open spec fn event_views(events: Seq<Event>) -> Seq<EventView> {
    events.map_values(|e: Event| e@)
}

impl Event {
    /// A new event with a fresh id and the current time.
    pub fn new(execution_id: &str, author: &str, content: Vec<ContentItem>) -> (e: Self)
        ensures
            e.execution_id@ == execution_id@,
            e.author@ == author@,
            e.content@ == content@,
            e.id@.len() == 36,
    {
        Event {
            id: new_uuid_string(),
            execution_id: String::from_str(execution_id),
            timestamp: unix_timestamp_now(),
            author: String::from_str(author),
            content,
        }
    }

    /// A field-by-field copy.
    pub fn duplicate(&self) -> (r: Self)
        ensures
            r@ == self@,
    {
        Event {
            id: self.id.clone(),
            execution_id: self.execution_id.clone(),
            timestamp: self.timestamp,
            author: self.author.clone(),
            content: duplicate_items(&self.content),
        }
    }
}

/// An element-wise copy of a list of events.
pub fn duplicate_events(events: &Vec<Event>) -> (r: Vec<Event>)
    ensures
        event_views(r@) == event_views(events@),
{
    let mut out: Vec<Event> = Vec::new();
    let mut i: usize = 0;
    while i < events.len()
        invariant
            i <= events.len(),
            out@.len() == i,
            forall|j: int| 0 <= j < i ==> (#[trigger] out@[j])@ == events@[j]@,
        decreases events.len() - i,
    {
        out.push(events[i].duplicate());
        i = i + 1;
    }
    proof {
        assert(event_views(out@) =~= event_views(events@));
    }
    out
}

} // verus!
