//! A conversation kept across runs: its events and the state the runtime keeps.

use crate::agent::confirmation::{
    duplicate_confirmations, duplicate_pending, PendingToolCall, ToolConfirmation,
};
use crate::agent::event::{duplicate_events, event_views, Event, EventView};
use crate::clock::unix_timestamp_now;
use vstd::prelude::*;

verus! {

/// The values the runtime and its callbacks keep between steps and runs.
#[derive(Debug, Clone)]
pub struct State {
    /// Tool calls waiting for approval.
    pub pending_tool_calls: Option<Vec<PendingToolCall>>,
    /// Answers to the waiting tool calls, handed in when a run resumes.
    pub tool_confirmations: Option<Vec<ToolConfirmation>>,
    /// Index of the last content item folded into the running summary.
    pub last_summary_idx: Option<u64>,
    /// The running summary of earlier progress.
    pub context_summary: Option<String>,
}

/// The abstract value of a `State`.
pub struct StateView {
    pub pending_tool_calls: Option<Seq<PendingToolCall>>,
    pub tool_confirmations: Option<Seq<ToolConfirmation>>,
    pub last_summary_idx: Option<u64>,
    pub context_summary: Option<Seq<char>>,
}

impl View for State {
    type V = StateView;

    open spec fn view(&self) -> StateView {
        StateView {
            pending_tool_calls: match &self.pending_tool_calls {
                Some(v) => Some(v@),
                None => None,
            },
            tool_confirmations: match &self.tool_confirmations {
                Some(v) => Some(v@),
                None => None,
            },
            last_summary_idx: self.last_summary_idx,
            context_summary: match &self.context_summary {
                Some(s) => Some(s@),
                None => None,
            },
        }
    }
}

impl State {
    /// The state of a new session: nothing kept.
    pub fn new() -> (s: Self)
        ensures
            s@ == State::empty_view(),
    {
        State {
            pending_tool_calls: None,
            tool_confirmations: None,
            last_summary_idx: None,
            context_summary: None,
        }
    }

    /// The view of a state that keeps nothing.
    pub open spec fn empty_view() -> StateView {
        StateView {
            pending_tool_calls: None,
            tool_confirmations: None,
            last_summary_idx: None,
            context_summary: None,
        }
    }

    /// A field-by-field copy.
    pub fn duplicate(&self) -> (r: Self)
        ensures
            r@ == self@,
    {
        State {
            pending_tool_calls: match &self.pending_tool_calls {
                Some(v) => Some(duplicate_pending(v)),
                None => None,
            },
            tool_confirmations: match &self.tool_confirmations {
                Some(v) => Some(duplicate_confirmations(v)),
                None => None,
            },
            last_summary_idx: self.last_summary_idx,
            context_summary: match &self.context_summary {
                Some(s) => Some(s.clone()),
                None => None,
            },
        }
    }
}

/// A conversation: its id, owner, events and kept state. Times are seconds
/// since the Unix epoch.
#[derive(Clone, Debug)]
pub struct Session {
    pub session_id: String,
    pub user_id: Option<String>,
    pub events: Vec<Event>,
    pub state: State,
    pub created_at: i64,
    pub updated_at: i64,
}

/// The abstract value of a session.
pub struct SessionView {
    pub session_id: Seq<char>,
    pub user_id: Option<Seq<char>>,
    pub events: Seq<EventView>,
    pub state: StateView,
    pub created_at: i64,
    pub updated_at: i64,
}

impl View for Session {
    type V = SessionView;

    open spec fn view(&self) -> SessionView {
        SessionView {
            session_id: self.session_id@,
            user_id: match &self.user_id {
                Some(u) => Some(u@),
                None => None,
            },
            events: event_views(self.events@),
            state: self.state@,
            created_at: self.created_at,
            updated_at: self.updated_at,
        }
    }
}

impl Session {
    /// A session with no events and an empty state, stamped with the current time.
    pub fn new(session_id: String, user_id: Option<String>) -> (s: Self)
        ensures
            s.session_id == session_id,
            s.user_id == user_id,
            s.events@.len() == 0,
            s.state@ == State::empty_view(),
    {
        Session {
            session_id,
            user_id,
            events: Vec::new(),
            state: State::new(),
            created_at: unix_timestamp_now(),
            updated_at: unix_timestamp_now(),
        }
    }

    /// A field-by-field copy.
    pub fn duplicate(&self) -> (r: Self)
        ensures
            r@ == self@,
    {
        Session {
            session_id: self.session_id.clone(),
            user_id: match &self.user_id {
                Some(u) => Some(u.clone()),
                None => None,
            },
            events: duplicate_events(&self.events),
            state: self.state.duplicate(),
            created_at: self.created_at,
            updated_at: self.updated_at,
        }
    }
}

} // verus!
