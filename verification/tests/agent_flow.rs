use ai_agent::agent::confirmation::{
    answer_confirmations, decide_confirmation, decide_confirmations, tool_error_message,
    unknown_tool_message, ConfirmationDecision, PendingToolCall, ToolConfirmation,
};
use ai_agent::agent::context::{ExecutionContext, TokenUsage};
use ai_agent::agent::event::{canonical_arguments, ContentItem, ToolCall, ToolResultStatus};
use ai_agent::agent::llm_request::{ChatMessage, LlmRequest};
use ai_agent::agent::runtime::{
    Agent, AgentError, AgentResult, AgentStatus, AssistantReply, LlmUsage, ReplyOutcome,
    StructuredAction, TurnAction, TurnEvent,
};
use ai_agent::agent::tool_exec::{
    after_callbacks, short_circuit, tool_outcome, CallAction, LlmToolCall, ToolBatch, ToolInfo,
};
use ai_agent::llm::complete::{
    final_reply_text, first_reply_step, opening_request, CompletionError, CompletionStep,
};
use ai_agent::session::manager::InMemorySessionManager;
use ai_agent::session::model::Session;

fn function_call(id: &str, name: &str, arguments: &str) -> LlmToolCall {
    LlmToolCall::Function {
        id: id.to_string(),
        name: name.to_string(),
        arguments: arguments.to_string(),
    }
}

fn custom_call() -> LlmToolCall {
    LlmToolCall::Custom { id: "k".to_string(), name: "grammar".to_string(), input: "raw input".to_string() }
}

fn pending(id: &str, name: &str, arguments: &str) -> PendingToolCall {
    PendingToolCall {
        tool_call: ToolCall {
            tool_call_id: id.to_string(),
            name: name.to_string(),
            arguments: canonical_arguments(arguments),
        },
        confirmation_message: format!("run {name}?"),
    }
}

#[test]
fn agent_defaults_and_error_messages() {
    let agent = Agent::new("gpt-test", Some("be brief"));
    assert_eq!(agent.model, "gpt-test");
    assert_eq!(agent.instructions.as_deref(), Some("be brief"));
    assert_eq!(agent.max_steps, 10);
    let agent = agent.with_max_steps(3);
    assert_eq!(agent.max_steps, 3);
    assert_eq!(
        AgentError::MaxStepsExceeded(3).message(),
        "Agent exceeded the maximum of 3 steps without a final answer"
    );
    assert_eq!(AgentError::NoChoices.message(), "No choices in response");
}

#[test]
fn canonical_arguments_sorts_keys_and_falls_back_to_null() {
    assert_eq!(canonical_arguments(r#"{"b": 1, "a": "x"}"#), r#"{"a":"x","b":1}"#);
    assert_eq!(canonical_arguments("not json"), "null");
    assert_eq!(canonical_arguments(" [1, 2] "), "[1,2]");
}

#[test]
fn begin_run_records_the_user_input_and_confirmations() {
    let agent = Agent::new("m", None);
    let session = Session::new("s".to_string(), None);
    let context = agent.begin_run(session, Some("hello"), None);
    assert_eq!(context.current_step, 0);
    assert!(context.final_result.is_none());
    assert_eq!(context.execution_id.len(), 36);
    assert_eq!(context.session.events.len(), 1);
    let event = &context.session.events[0];
    assert_eq!(event.author, "user");
    assert_eq!(event.execution_id, context.execution_id);
    let ContentItem::Message { role, content } = &event.content[0] else {
        panic!("expected a message");
    };
    assert_eq!(role, "user");
    assert_eq!(content, "hello");

    let confirmations = vec![ToolConfirmation {
        tool_call_id: "c1".to_string(),
        approved: true,
        modified_arguments: None,
        reason: None,
    }];
    let resumed = agent.begin_run(context.session, None, Some(confirmations));
    assert_eq!(resumed.session.events.len(), 1);
    assert_eq!(resumed.session.state.tool_confirmations.as_ref().map(|v| v.len()), Some(1));
}

#[test]
fn step_limit_is_refused_at_max_steps() {
    let agent = Agent::new("m", None).with_max_steps(2);
    let mut context = ExecutionContext::new(Session::new("s".to_string(), None));
    assert!(agent.check_step_limit(&context).is_ok());
    context.increment_step();
    context.increment_step();
    match agent.check_step_limit(&context) {
        Err(AgentError::MaxStepsExceeded(n)) => assert_eq!(n, 2),
        other => panic!("unexpected {other:?}"),
    }
}

#[test]
fn reply_with_text_becomes_the_answer() {
    let agent = Agent::new("m", None);
    let mut context = agent.begin_run(Session::new("s".to_string(), None), Some("hi"), None);
    Agent::record_usage(
        &mut context,
        Some(LlmUsage { prompt_tokens: 5, completion_tokens: 2, total_tokens: 7 }),
    );
    Agent::record_usage(
        &mut context,
        Some(LlmUsage { prompt_tokens: 1, completion_tokens: 1, total_tokens: 2 }),
    );
    assert_eq!(context.usage.prompt_tokens, 6);
    assert_eq!(context.usage.total_tokens, 9);
    let reply = AssistantReply { content: Some("the answer".to_string()), tool_calls: None };
    match agent.handle_reply(&mut context, Some(reply)) {
        Ok(ReplyOutcome::Answer(a)) => assert_eq!(a, "the answer"),
        other => panic!("unexpected {other:?}"),
    }
    assert_eq!(context.final_result.as_deref(), Some("the answer"));
    let last = context.session.events.last().unwrap();
    assert_eq!(last.author, "agent");
    let ContentItem::Message { role, content } = &last.content[0] else {
        panic!("expected a message");
    };
    assert_eq!(role, "assistant");
    assert_eq!(content, "the answer");
}

#[test]
fn empty_replies_are_errors_and_change_nothing() {
    let agent = Agent::new("m", None);
    let mut context = agent.begin_run(Session::new("s".to_string(), None), Some("hi"), None);
    assert!(matches!(agent.handle_reply(&mut context, None), Err(AgentError::NoChoices)));
    let reply = AssistantReply { content: None, tool_calls: None };
    assert!(matches!(agent.handle_reply(&mut context, Some(reply)), Err(AgentError::NoFinalContent)));
    assert_eq!(context.session.events.len(), 1);
    let reply = AssistantReply { content: Some("x".to_string()), tool_calls: None };
    assert!(matches!(
        agent.handle_structured_reply(&mut context, Some(reply)),
        Err(AgentError::NoToolCall)
    ));
    assert_eq!(context.session.events.len(), 1);
}

#[test]
fn tool_calls_are_recorded_then_results_and_held_back_calls() {
    let agent = Agent::new("m", None);
    let mut context = agent.begin_run(Session::new("s".to_string(), None), Some("hi"), None);
    let reply = AssistantReply {
        content: None,
        tool_calls: Some(vec![
            function_call("c1", "calculator", r#"{"expression": "1+1"}"#),
            custom_call(),
            function_call("c2", "delete_file", r#"{"file_path":"a.txt"}"#),
        ]),
    };
    let calls = match agent.handle_reply(&mut context, Some(reply)) {
        Ok(ReplyOutcome::RunTools(calls)) => calls,
        other => panic!("unexpected {other:?}"),
    };
    assert_eq!(calls.len(), 3);
    let recorded = &context.session.events.last().unwrap().content;
    assert_eq!(recorded.len(), 2);
    let ContentItem::ToolCall(call) = &recorded[0] else { panic!("expected a call") };
    assert_eq!(call.arguments, r#"{"expression":"1+1"}"#);

    let mut batch = ToolBatch::new();
    batch.add_result("c1", "calculator", ToolResultStatus::Success, "2".to_string());
    batch.hold_for_confirmation("c2", "delete_file", r#"{"file_path":"a.txt"}"#, "Delete a.txt?".to_string());
    agent.finish_tool_calls(&mut context, batch);
    let last = context.session.events.last().unwrap();
    assert_eq!(last.author, "tool");
    assert_eq!(last.content.len(), 1);
    let held = Agent::pending_after_tools(&context).expect("held back");
    assert_eq!(held.len(), 1);
    assert_eq!(held[0].tool_call.tool_call_id, "c2");
    assert_eq!(held[0].confirmation_message, "Delete a.txt?");

    let result = AgentResult::pending(context, held);
    assert_eq!(result.status, AgentStatus::PendingConfirmation);
    assert!(result.output.is_none());
}

#[test]
fn held_back_calls_come_back_with_their_confirmations() {
    let agent = Agent::new("m", None);
    let mut store = InMemorySessionManager::new();
    let session = store.get_or_create("s", None);
    let mut context = agent.begin_run(session, Some("delete it"), None);
    let mut batch = ToolBatch::new();
    batch.hold_for_confirmation("c9", "delete_file", r#"{"file_path":"x"}"#, "ok?".to_string());
    agent.finish_tool_calls(&mut context, batch);
    store.save(context.session);

    let session = store.get_or_create("s", None);
    let confirmations = vec![ToolConfirmation {
        tool_call_id: "c9".to_string(),
        approved: false,
        modified_arguments: None,
        reason: Some("keep it".to_string()),
    }];
    let mut context = agent.begin_run(session, None, Some(confirmations));
    let (held, confirmations) = Agent::take_confirmations(&mut context).expect("both present");
    assert_eq!(held.len(), 1);
    assert_eq!(held[0].tool_call.tool_call_id, "c9");
    assert!(context.session.state.pending_tool_calls.is_none());
    assert!(context.session.state.tool_confirmations.is_none());

    let mut results = Vec::new();
    for call in &held {
        match decide_confirmation(call, &confirmations) {
            ConfirmationDecision::Reject { content } => {
                results.push(call.result(ToolResultStatus::Error, content))
            }
            ConfirmationDecision::Execute { .. } => panic!("was rejected"),
        }
    }
    Agent::record_confirmation_results(&mut context, results);
    let last = context.session.events.last().unwrap();
    assert_eq!(last.author, "tool");
    let ContentItem::ToolResult { content, status, .. } = &last.content[0] else {
        panic!("expected a result");
    };
    assert_eq!(content, "keep it");
    assert_eq!(*status, ToolResultStatus::Error);
    assert!(Agent::take_confirmations(&mut context).is_none());
}

#[test]
fn confirmation_decisions_cover_every_answer() {
    let call = pending("c1", "delete_file", r#"{"file_path": "a.txt", "force": false}"#);
    let approve = ToolConfirmation {
        tool_call_id: "c1".to_string(),
        approved: true,
        modified_arguments: Some(r#"{"force": true, "extra": "y"}"#.to_string()),
        reason: None,
    };
    match decide_confirmation(&call, &vec![approve]) {
        ConfirmationDecision::Execute { arguments } => {
            assert_eq!(arguments, r#"{"extra":"y","file_path":"a.txt","force":true}"#)
        }
        other => panic!("unexpected {other:?}"),
    }
    let plain = ToolConfirmation {
        tool_call_id: "c1".to_string(),
        approved: true,
        modified_arguments: None,
        reason: None,
    };
    match decide_confirmation(&call, &vec![plain]) {
        ConfirmationDecision::Execute { arguments } => {
            assert_eq!(arguments, r#"{"file_path":"a.txt","force":false}"#)
        }
        other => panic!("unexpected {other:?}"),
    }
    let reject = ToolConfirmation {
        tool_call_id: "c1".to_string(),
        approved: false,
        modified_arguments: None,
        reason: None,
    };
    match decide_confirmation(&call, &vec![reject]) {
        ConfirmationDecision::Reject { content } => {
            assert_eq!(content, "Tool execution was rejected by user.")
        }
        other => panic!("unexpected {other:?}"),
    }
    match decide_confirmation(&call, &Vec::new()) {
        ConfirmationDecision::Reject { content } => {
            assert_eq!(content, "Tool execution was not approved.")
        }
        other => panic!("unexpected {other:?}"),
    }
    assert_eq!(tool_error_message("boom"), "Tool execution error: boom");
    assert_eq!(unknown_tool_message("nope"), "Tool execution error: unknown tool nope");
}

#[test]
fn the_last_confirmation_for_a_call_wins() {
    let call = pending("c1", "t", "{}");
    let first = ToolConfirmation {
        tool_call_id: "c1".to_string(),
        approved: false,
        modified_arguments: None,
        reason: Some("no".to_string()),
    };
    let second = ToolConfirmation {
        tool_call_id: "c1".to_string(),
        approved: true,
        modified_arguments: None,
        reason: None,
    };
    assert!(matches!(
        decide_confirmation(&call, &vec![first, second]),
        ConfirmationDecision::Execute { .. }
    ));
}

#[test]
fn request_and_messages_follow_the_session() {
    let agent = Agent::new("m", Some("system text"));
    let mut context = agent.begin_run(Session::new("s".to_string(), None), Some("q"), None);
    let reply = AssistantReply {
        content: None,
        tool_calls: Some(vec![function_call("a", "t1", "{}"), function_call("b", "t2", "{}")]),
    };
    agent.handle_reply(&mut context, Some(reply)).expect("tools");
    let mut batch = ToolBatch::new();
    batch.add_result("a", "t1", ToolResultStatus::Success, "ra".to_string());
    batch.add_result("b", "t2", ToolResultStatus::Error, "rb".to_string());
    agent.finish_tool_calls(&mut context, batch);

    let mut request = Agent::request_from_context(&context);
    assert_eq!(request.contents.len(), 5);
    request.append_instructions("extra".to_string());
    let messages = agent.build_messages(&request);
    assert_eq!(messages.len(), 6);
    assert!(matches!(&messages[0], ChatMessage::System(s) if s == "system text"));
    assert!(matches!(&messages[1], ChatMessage::System(s) if s == "extra"));
    assert!(matches!(&messages[2], ChatMessage::User(s) if s == "q"));
    match &messages[3] {
        ChatMessage::Assistant { content, tool_calls } => {
            assert!(content.is_none());
            assert_eq!(tool_calls.len(), 2);
            assert_eq!(tool_calls[1].id, "b");
            assert_eq!(tool_calls[1].arguments, "{}");
        }
        other => panic!("unexpected {other:?}"),
    }
    assert!(matches!(&messages[5], ChatMessage::Tool { tool_call_id, content } if tool_call_id == "b" && content == "rb"));
}

#[test]
fn an_assistant_text_followed_by_a_call_is_one_message() {
    let agent = Agent::new("m", None);
    let request = LlmRequest {
        instructions: Vec::new(),
        contents: vec![
            ContentItem::Message { role: "assistant".to_string(), content: "thinking".to_string() },
            ContentItem::ToolCall(ToolCall {
                tool_call_id: "x".to_string(),
                name: "t".to_string(),
                arguments: "{}".to_string(),
            }),
        ],
    };
    let messages = agent.build_messages(&request);
    assert_eq!(messages.len(), 1);
    match &messages[0] {
        ChatMessage::Assistant { content, tool_calls } => {
            assert_eq!(content.as_deref(), Some("thinking"));
            assert_eq!(tool_calls.len(), 1);
        }
        other => panic!("unexpected {other:?}"),
    }
}

#[test]
fn structured_answers_come_from_the_final_answer_call() {
    let agent = Agent::new("m", None);
    let mut context = agent.begin_run(Session::new("s".to_string(), None), Some("q"), None);
    let calls = vec![
        function_call("x", "other", "{}"),
        function_call("y", "final_answer", r#"{"v": 1}"#),
        function_call("z", "final_answer", "{}"),
    ];
    let reply = AssistantReply { content: None, tool_calls: Some(calls) };
    let calls = agent.handle_structured_reply(&mut context, Some(reply)).expect("calls");
    let (id, raw) = Agent::find_final_answer(&calls).expect("present");
    assert_eq!(id, "y");
    assert_eq!(raw, r#"{"v": 1}"#);
    Agent::finish_structured(&mut context, &id, &raw);
    assert_eq!(context.final_result.as_deref(), Some(r#"{"v": 1}"#));
    assert!(Agent::find_final_answer(&vec![custom_call()]).is_none());

    let done = AgentResult::complete(context, "fine".to_string());
    assert_eq!(done.status, AgentStatus::Complete);
    assert_eq!(done.output.as_deref(), Some("fine"));
}

#[test]
fn token_usage_adds_fieldwise() {
    let mut u = TokenUsage::zero();
    u.add(1, 2, 3);
    u.add(10, 20, 30);
    assert_eq!((u.prompt_tokens, u.completion_tokens, u.total_tokens), (11, 22, 33));
}

#[test]
fn one_shot_completion_runs_only_calculator_calls() {
    let mut messages = opening_request(Some("sys"), "what is 2+3?");
    assert_eq!(messages.len(), 2);
    assert!(matches!(&messages[0], ChatMessage::System(s) if s == "sys"));
    assert!(matches!(&messages[1], ChatMessage::User(s) if s == "what is 2+3?"));
    assert_eq!(opening_request(None, "p").len(), 1);

    let reply = AssistantReply {
        content: None,
        tool_calls: Some(vec![
            function_call("a", "calculator", r#"{"operator":"add","first_number":2,"second_number":3}"#),
            function_call("b", "web_search", "{}"),
            custom_call(),
        ]),
    };
    match first_reply_step(&mut messages, Some(reply)) {
        Ok(CompletionStep::RunCalculator(calls)) => {
            assert_eq!(calls.len(), 1);
            assert_eq!(calls[0].0, "a");
        }
        other => panic!("unexpected {other:?}"),
    }
    assert_eq!(messages.len(), 3);
    match &messages[2] {
        ChatMessage::Assistant { content, tool_calls } => {
            assert!(content.is_none());
            assert_eq!(tool_calls.len(), 3);
            assert_eq!(tool_calls[1].name, "web_search");
            assert!(!tool_calls[1].custom);
            assert!(tool_calls[2].custom);
            assert_eq!(tool_calls[2].arguments, "raw input");
        }
        other => panic!("unexpected {other:?}"),
    }

    let mut m = opening_request(None, "p");
    let done = first_reply_step(&mut m, Some(AssistantReply { content: Some("5".to_string()), tool_calls: None }));
    assert!(matches!(done, Ok(CompletionStep::Done(t)) if t == "5"));
    assert_eq!(m.len(), 1);
    let none = first_reply_step(&mut m, None);
    assert!(matches!(none, Err(CompletionError::NoChoices)));
    assert_eq!(CompletionError::NoChoices.message(), "No choices in response");
    let empty = first_reply_step(&mut m, Some(AssistantReply { content: None, tool_calls: None }));
    assert!(matches!(empty, Err(CompletionError::NoContent)));
    assert_eq!(final_reply_text(None).unwrap_err().message(), "No content in response");
    assert_eq!(
        final_reply_text(Some(AssistantReply { content: Some("x".to_string()), tool_calls: None })).unwrap(),
        "x"
    );
}

#[test]
fn dispatch_holds_runs_or_refuses_each_call() {
    let confirm = ToolInfo {
        requires_confirmation: true,
        confirmation_message_template: "delete {arguments} with {name}?".to_string(),
    };
    let plain = ToolInfo { requires_confirmation: false, confirmation_message_template: String::new() };
    let mut batch = ToolBatch::new();
    let held = batch.dispatch(&function_call("d", "delete_file", r#"{ "file_path" : "a" }"#), Some(&confirm));
    assert!(matches!(held, CallAction::Held));
    assert_eq!(batch.pending.len(), 1);
    assert_eq!(batch.pending[0].confirmation_message, r#"delete {"file_path":"a"} with delete_file?"#);
    assert_eq!(batch.pending[0].tool_call.arguments, r#"{"file_path":"a"}"#);

    match batch.dispatch(&function_call("c", "calculator", "{}"), Some(&plain)) {
        CallAction::Run { id, name, arguments } => {
            assert_eq!((id.as_str(), name.as_str(), arguments.as_str()), ("c", "calculator", "{}"))
        }
        other => panic!("unexpected {other:?}"),
    }
    assert!(batch.results.is_empty());

    assert!(matches!(
        batch.dispatch(&function_call("u", "nope", "{}"), None),
        CallAction::Run { name, .. } if name == "nope"
    ));
    assert!(matches!(batch.dispatch(&custom_call(), None), CallAction::Skip));
    assert!(batch.results.is_empty());
    assert_eq!(batch.pending.len(), 1);

    assert_eq!(tool_outcome("t", Some(Ok("out".to_string()))), (ToolResultStatus::Success, "out".to_string()));
    assert_eq!(
        tool_outcome("t", Some(Err("boom".to_string()))),
        (ToolResultStatus::Error, "Tool execution error: boom".to_string())
    );
    assert_eq!(
        tool_outcome("nope", None),
        (ToolResultStatus::Error, "Tool execution error: unknown tool nope".to_string())
    );
}

#[test]
fn the_first_callback_that_answers_decides() {
    assert_eq!(short_circuit(vec![None, Some("cached".to_string()), Some("later".to_string())]),
        Some((ToolResultStatus::Success, "cached".to_string())));
    assert_eq!(short_circuit(vec![None, None]), None);
    assert_eq!(short_circuit(Vec::new()), None);
    let outcome = (ToolResultStatus::Success, "raw".to_string());
    assert_eq!(after_callbacks(outcome.clone(), vec![None]), outcome);
    assert_eq!(
        after_callbacks(
            outcome,
            vec![None, Some((ToolResultStatus::Error, "short".to_string())), Some((ToolResultStatus::Success, "x".to_string()))]
        ),
        (ToolResultStatus::Error, "short".to_string())
    );
}

#[test]
fn turns_advance_until_an_answer_or_a_held_call() {
    let agent = Agent::new("m", None).with_max_steps(2);
    let mut context = agent.begin_run(Session::new("s".to_string(), None), Some("q"), None);
    assert!(matches!(agent.first_action(&context), Ok(TurnAction::CallModel)));
    let reply = AssistantReply { content: None, tool_calls: Some(vec![function_call("a", "t", "{}")]) };
    let usage = Some(LlmUsage { prompt_tokens: 1, completion_tokens: 2, total_tokens: 3 });
    let calls = match agent.advance(&mut context, TurnEvent::ModelReplied { usage, reply: Some(reply) }) {
        Ok(TurnAction::RunTools(calls)) => calls,
        other => panic!("unexpected {other:?}"),
    };
    assert_eq!(calls.len(), 1);
    assert_eq!(context.usage.total_tokens, 3);
    let mut batch = ToolBatch::new();
    batch.add_result("a", "t", ToolResultStatus::Success, "r".to_string());
    assert!(matches!(agent.advance(&mut context, TurnEvent::ToolsFinished(batch)), Ok(TurnAction::CallModel)));
    assert_eq!(context.current_step, 1);
    assert_eq!(context.session.events.len(), 3);

    let reply = AssistantReply { content: None, tool_calls: Some(vec![function_call("b", "t", "{}")]) };
    agent.advance(&mut context, TurnEvent::ModelReplied { usage: None, reply: Some(reply) }).expect("tools");
    match agent.advance(&mut context, TurnEvent::ToolsFinished(ToolBatch::new())) {
        Err(AgentError::MaxStepsExceeded(n)) => assert_eq!(n, 2),
        other => panic!("unexpected {other:?}"),
    }

    let mut context = agent.begin_run(Session::new("s2".to_string(), None), Some("q"), None);
    let mut batch = ToolBatch::new();
    batch.hold_for_confirmation("d", "delete_file", "{}", "ok?".to_string());
    match agent.advance(&mut context, TurnEvent::ToolsFinished(batch)) {
        Ok(TurnAction::AwaitConfirmation(p)) => assert_eq!(p[0].tool_call.tool_call_id, "d"),
        other => panic!("unexpected {other:?}"),
    }
    assert_eq!(context.current_step, 0);

    let reply = AssistantReply { content: Some("done".to_string()), tool_calls: None };
    assert!(matches!(
        agent.advance(&mut context, TurnEvent::ModelReplied { usage: None, reply: Some(reply) }),
        Ok(TurnAction::Complete(a)) if a == "done"
    ));
    assert!(matches!(
        agent.advance(&mut context, TurnEvent::ModelReplied { usage: None, reply: None }),
        Err(AgentError::NoChoices)
    ));
    let stopped = Agent::new("m", None).with_max_steps(0);
    assert!(matches!(stopped.first_action(&context), Err(AgentError::MaxStepsExceeded(0))));
}

#[test]
fn every_paused_call_is_answered_in_order() {
    let pending = vec![pending("c1", "t1", "{}"), pending("c2", "t2", r#"{"a":1}"#), pending("c3", "t3", "{}")];
    let confirmations = vec![
        ToolConfirmation { tool_call_id: "c2".to_string(), approved: true, modified_arguments: None, reason: None },
        ToolConfirmation { tool_call_id: "c3".to_string(), approved: false, modified_arguments: None, reason: Some("no".to_string()) },
    ];
    let decisions = decide_confirmations(&pending, &confirmations);
    assert_eq!(decisions.len(), 3);
    assert!(matches!(&decisions[1], ConfirmationDecision::Execute { arguments } if arguments == r#"{"a":1}"#));
    let ran: Vec<Option<(ToolResultStatus, String)>> = decisions
        .iter()
        .map(|d| match d {
            ConfirmationDecision::Execute { .. } => Some((ToolResultStatus::Success, "ran".to_string())),
            ConfirmationDecision::Reject { .. } => None,
        })
        .collect();
    let results = answer_confirmations(&pending, decisions, ran);
    let texts: Vec<(&str, &str, ToolResultStatus)> = results
        .iter()
        .map(|r| match r {
            ContentItem::ToolResult { tool_call_id, content, status, .. } => (tool_call_id.as_str(), content.as_str(), *status),
            _ => panic!("result"),
        })
        .collect();
    assert_eq!(texts, vec![
        ("c1", "Tool execution was not approved.", ToolResultStatus::Error),
        ("c2", "ran", ToolResultStatus::Success),
        ("c3", "no", ToolResultStatus::Error),
    ]);
}

#[test]
fn sessions_are_stamped_with_the_current_time() {
    let s = Session::new("t".to_string(), None);
    assert!(s.created_at > 1_600_000_000);
    assert!(s.updated_at >= s.created_at);
}

#[test]
fn every_event_of_a_turn_belongs_to_the_run() {
    let agent = Agent::new("m", None);
    let mut context = agent.begin_run(Session::new("s".to_string(), None), Some("q"), None);
    let id = context.execution_id.clone();
    let reply = AssistantReply { content: None, tool_calls: Some(vec![function_call("a", "t", "{}")]) };
    agent.advance(&mut context, TurnEvent::ModelReplied { usage: None, reply: Some(reply) }).expect("tools");
    agent.advance(&mut context, TurnEvent::ToolsFinished(ToolBatch::new())).expect("next");
    let reply = AssistantReply { content: Some("done".to_string()), tool_calls: None };
    agent.advance(&mut context, TurnEvent::ModelReplied { usage: None, reply: Some(reply) }).expect("answer");
    assert_eq!(context.session.events.len(), 4);
    assert!(context.session.events.iter().all(|e| e.execution_id == id));
}

#[test]
fn resuming_answers_the_paused_calls_in_order() {
    let agent = Agent::new("m", None);
    let mut context = agent.begin_run(Session::new("s".to_string(), None), None, None);
    let paused = vec![pending("c1", "t1", "{}"), pending("c2", "t2", "{}")];
    let confirmations = vec![ToolConfirmation {
        tool_call_id: "c1".to_string(),
        approved: true,
        modified_arguments: None,
        reason: None,
    }];
    let decisions = decide_confirmations(&paused, &confirmations);
    let ran = vec![Some((ToolResultStatus::Success, "did it".to_string())), None];
    Agent::answer_paused_calls(&mut context, &paused, decisions, ran);
    let last = context.session.events.last().unwrap();
    assert_eq!(last.author, "tool");
    assert_eq!(last.execution_id, context.execution_id);
    let answers: Vec<(&str, &str)> = last
        .content
        .iter()
        .map(|r| match r {
            ContentItem::ToolResult { tool_call_id, content, .. } => (tool_call_id.as_str(), content.as_str()),
            _ => panic!("result"),
        })
        .collect();
    assert_eq!(answers, vec![("c1", "did it"), ("c2", "Tool execution was not approved.")]);

    let before = context.session.events.len();
    Agent::answer_paused_calls(&mut context, &Vec::new(), Vec::new(), Vec::new());
    assert_eq!(context.session.events.len(), before);
}

#[test]
fn structured_turns_end_at_the_final_answer_call() {
    let agent = Agent::new("m", None).with_max_steps(2);
    let mut context = agent.begin_run(Session::new("s".to_string(), None), Some("q"), None);
    let reply = AssistantReply { content: None, tool_calls: Some(vec![function_call("a", "search", "{}")]) };
    let calls = match agent.advance_structured(&mut context, TurnEvent::ModelReplied { usage: None, reply: Some(reply) }) {
        Ok(StructuredAction::RunTools(calls)) => calls,
        other => panic!("unexpected {other:?}"),
    };
    assert_eq!(calls.len(), 1);
    assert!(matches!(
        agent.advance_structured(&mut context, TurnEvent::ToolsFinished(ToolBatch::new())),
        Ok(StructuredAction::CallModel)
    ));
    assert_eq!(context.current_step, 1);
    let reply = AssistantReply {
        content: None,
        tool_calls: Some(vec![function_call("b", "x", "{}"), function_call("f", "final_answer", r#"{"v":2}"#)]),
    };
    match agent.advance_structured(&mut context, TurnEvent::ModelReplied { usage: None, reply: Some(reply) }) {
        Ok(StructuredAction::FinalAnswer { id, raw_arguments }) => {
            assert_eq!(id, "f");
            assert_eq!(raw_arguments, r#"{"v":2}"#);
        }
        other => panic!("unexpected {other:?}"),
    }
    let reply = AssistantReply { content: Some("text".to_string()), tool_calls: None };
    assert!(matches!(
        agent.advance_structured(&mut context, TurnEvent::ModelReplied { usage: None, reply: Some(reply) }),
        Err(AgentError::NoToolCall)
    ));
    assert!(matches!(
        agent.advance_structured(&mut context, TurnEvent::ToolsFinished(ToolBatch::new())),
        Err(AgentError::MaxStepsExceeded(2))
    ));
}
