use vstd::prelude::*;
use crate::agent::event::{duplicate_events, event_views, Event};
use crate::clock::new_uuid_string;
use crate::session::model::{Session, State};

verus! {

/// Token counts reported by the model provider, accumulated over a run.
#[derive(Debug, Clone, Copy, Default)]
pub struct TokenUsage {
    pub prompt_tokens: u32,
    pub completion_tokens: u32,
    pub total_tokens: u32,
}

impl TokenUsage {
    /// Whether `add` with these amounts stays within `u32`.
    pub open spec fn can_add(self, prompt_tokens: u32, completion_tokens: u32, total_tokens: u32) -> bool {
        &&& self.prompt_tokens + prompt_tokens <= u32::MAX
        &&& self.completion_tokens + completion_tokens <= u32::MAX
        &&& self.total_tokens + total_tokens <= u32::MAX
    }

    /// Adds one response's counts to the running totals.
    pub fn add(&mut self, prompt_tokens: u32, completion_tokens: u32, total_tokens: u32)
        requires
            old(self).can_add(prompt_tokens, completion_tokens, total_tokens),
        ensures
            final(self).prompt_tokens == old(self).prompt_tokens + prompt_tokens,
            final(self).completion_tokens == old(self).completion_tokens + completion_tokens,
            final(self).total_tokens == old(self).total_tokens + total_tokens,
    {
        self.prompt_tokens = self.prompt_tokens + prompt_tokens;
        self.completion_tokens = self.completion_tokens + completion_tokens;
        self.total_tokens = self.total_tokens + total_tokens;
    }
}

impl TokenUsage {
    /// No tokens counted yet.
    pub fn zero() -> (u: Self)
        ensures
            u.prompt_tokens == 0,
            u.completion_tokens == 0,
            u.total_tokens == 0,
    {
        TokenUsage { prompt_tokens: 0, completion_tokens: 0, total_tokens: 0 }
    }
}

/// The state of one run of the agent over a session.
#[derive(Debug)]
pub struct ExecutionContext {
    pub execution_id: String,
    pub current_step: u32,
    pub final_result: Option<String>,
    pub usage: TokenUsage,
    pub session: Session,
}

impl ExecutionContext {
    /// A fresh run over `session`, with a new execution id.
    pub fn new(session: Session) -> (c: Self)
        ensures
            c.execution_id@.len() == 36,
            c.current_step == 0,
            c.final_result is None,
            c.usage == TokenUsage::zero_view(),
            c.session == session,
    {
        ExecutionContext {
            execution_id: new_uuid_string(),
            current_step: 0,
            final_result: None,
            usage: TokenUsage::zero(),
            session,
        }
    }

    /// Appends an event to the session.
    pub fn add_event(&mut self, event: Event)
        ensures
            final(self).session.events@ == old(self).session.events@.push(event),
            final(self).session.session_id == old(self).session.session_id,
            final(self).session.user_id == old(self).session.user_id,
            final(self).session.state == old(self).session.state,
            final(self).session.created_at == old(self).session.created_at,
            final(self).session.updated_at == old(self).session.updated_at,
            final(self).execution_id == old(self).execution_id,
            final(self).current_step == old(self).current_step,
            final(self).final_result == old(self).final_result,
            final(self).usage == old(self).usage,
    {
        self.session.events.push(event);
    }

    /// A copy of the session's events.
    pub fn events(&self) -> (r: Vec<Event>)
        ensures
            event_views(r@) == event_views(self.session.events@),
    {
        duplicate_events(&self.session.events)
    }

    /// The session state, for reading and writing.
    pub fn state_mut(&mut self) -> (r: &mut State)
        ensures
            *r == old(self).session.state,
            final(self).session.state == *final(r),
            final(self).session.events == old(self).session.events,
            final(self).session.session_id == old(self).session.session_id,
            final(self).execution_id == old(self).execution_id,
            final(self).current_step == old(self).current_step,
            final(self).final_result == old(self).final_result,
            final(self).usage == old(self).usage,
    {
        &mut self.session.state
    }

    /// Moves on to the next step.
    pub fn increment_step(&mut self)
        requires
            old(self).current_step < u32::MAX,
        ensures
            final(self).current_step == old(self).current_step + 1,
            final(self).session == old(self).session,
            final(self).execution_id == old(self).execution_id,
            final(self).final_result == old(self).final_result,
            final(self).usage == old(self).usage,
    {
        self.current_step = self.current_step + 1;
    }
}

impl TokenUsage {
    /// The value of `TokenUsage::zero()`.
    pub open spec fn zero_view() -> TokenUsage {
        TokenUsage { prompt_tokens: 0, completion_tokens: 0, total_tokens: 0 }
    }
}

} // verus!
