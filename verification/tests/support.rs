use ai_agent::agent::confirmation::PendingToolCall;
use ai_agent::agent::context::{ExecutionContext, TokenUsage};
use ai_agent::agent::event::{ContentItem, Event, ToolCall, ToolResultStatus};
use ai_agent::agent::llm_request::LlmRequest;
use ai_agent::agent::runtime::AgentResult;
use ai_agent::callback::memory_injection::MemoryInjectionCallback;
use ai_agent::cli::{
    add_usage, confirmation_from_answer, new_session_id, parse_command, result_answer_line,
    result_usage_line, short_session_id, tool_trace, Command,
};
use ai_agent::gaia::evaluator::{evaluate_gaia_single, is_correct, GaiaRow, SolverOutput};
use ai_agent::knowledge_base::search::{order_by_index, rank_top_k};
use ai_agent::llm::ask::{enforce_strict_json_schema, JsonValue};
use ai_agent::memory::manager::TaskMemoryManager;
use ai_agent::memory::prompt::{DUPLICATE_CHECK_PROMPT, TASK_MEMORY_EXTRACTION_PROMPT};
use ai_agent::memory::task_memory::{DuplicateCheckResult, TaskMemory};
use ai_agent::session::model::Session;

fn memory(summary: &str, correct: bool) -> TaskMemory {
    TaskMemory {
        task_summary: summary.to_string(),
        approach: "look it up".to_string(),
        final_answer: "42".to_string(),
        is_correct: correct,
        error_analysis: None,
    }
}

#[test]
fn gaia_answers_compare_trimmed_and_lower_cased() {
    assert!(is_correct("  Paris ", "paris"));
    assert!(is_correct("ÉTÉ", "été"));
    assert!(!is_correct("", ""));
    assert!(!is_correct("Lyon", "Paris"));
    let row = GaiaRow {
        task_id: "t1".to_string(),
        question: "capital?".to_string(),
        final_answer: "Paris".to_string(),
    };
    let ok = evaluate_gaia_single(
        row.clone(),
        "model-a",
        Ok(SolverOutput {
            final_answer: "PARIS".to_string(),
            is_solvable: true,
            unsolvable_reason: String::new(),
        }),
    );
    assert!(ok.correct);
    assert_eq!(ok.prediction.as_deref(), Some("PARIS"));
    assert_eq!(ok.is_solvable, Some(true));
    assert!(ok.error.is_none());
    let failed = evaluate_gaia_single(row, "model-a", Err("timed out".to_string()));
    assert!(!failed.correct);
    assert_eq!(failed.error.as_deref(), Some("timed out"));
    assert_eq!(failed.answer, "Paris");
    assert_eq!(failed.model, "model-a");
    assert!(failed.prediction.is_none());
}

#[test]
fn ranking_keeps_the_best_in_stable_order() {
    let keys = vec![5, 9, 5, 1, 9];
    assert_eq!(rank_top_k(&keys, 3), vec![1, 4, 0]);
    assert_eq!(rank_top_k(&keys, 10), vec![1, 4, 0, 2, 3]);
    assert!(rank_top_k(&keys, 0).is_empty());
    assert!(rank_top_k(&Vec::new(), 2).is_empty());
    assert_eq!(order_by_index(&vec![3, 1, 2, 1]), vec![1, 3, 2, 0]);
}

#[test]
fn strict_schema_closes_every_object_node() {
    let mut schema = JsonValue::Object(vec![
        ("type".to_string(), JsonValue::String("object".to_string())),
        (
            "properties".to_string(),
            JsonValue::Object(vec![
                ("a".to_string(), JsonValue::Object(vec![("type".to_string(), JsonValue::String("string".to_string()))])),
                (
                    "b".to_string(),
                    JsonValue::Object(vec![
                        ("type".to_string(), JsonValue::String("object".to_string())),
                        ("properties".to_string(), JsonValue::Object(Vec::new())),
                    ]),
                ),
            ]),
        ),
        ("required".to_string(), JsonValue::Array(vec![JsonValue::String("a".to_string())])),
    ]);
    enforce_strict_json_schema(&mut schema);
    let JsonValue::Object(top) = &schema else { panic!("object") };
    let get = |members: &Vec<(String, JsonValue)>, key: &str| -> Option<JsonValue> {
        members.iter().find(|(k, _)| k == key).map(|(_, v)| clone_json(v))
    };
    assert!(matches!(get(top, "additionalProperties"), Some(JsonValue::Bool(false))));
    match get(top, "required") {
        Some(JsonValue::Array(items)) => {
            let names: Vec<String> = items
                .iter()
                .map(|i| match i {
                    JsonValue::String(s) => s.clone(),
                    _ => panic!("string"),
                })
                .collect();
            assert_eq!(names, vec!["a", "b"]);
        }
        _ => panic!("required list"),
    }
    let Some(JsonValue::Object(props)) = get(top, "properties") else { panic!("properties") };
    let Some(JsonValue::Object(a)) = get(&props, "a") else { panic!("a") };
    assert!(get(&a, "additionalProperties").is_none());
    let Some(JsonValue::Object(b)) = get(&props, "b") else { panic!("b") };
    assert!(matches!(get(&b, "additionalProperties"), Some(JsonValue::Bool(false))));
    assert!(matches!(get(&b, "required"), Some(JsonValue::Array(v)) if v.is_empty()));
}

fn clone_json(v: &JsonValue) -> JsonValue {
    match v {
        JsonValue::Null => JsonValue::Null,
        JsonValue::Bool(b) => JsonValue::Bool(*b),
        JsonValue::Number(n) => JsonValue::Number(n.clone()),
        JsonValue::String(s) => JsonValue::String(s.clone()),
        JsonValue::Array(items) => JsonValue::Array(items.iter().map(clone_json).collect()),
        JsonValue::Object(m) => {
            JsonValue::Object(m.iter().map(|(k, v)| (k.clone(), clone_json(v))).collect())
        }
    }
}

#[test]
fn memory_prompts_fill_their_placeholders() {
    let p = TaskMemoryManager::extraction_prompt("[user]: hi");
    assert_eq!(p, TASK_MEMORY_EXTRACTION_PROMPT.replace("{execution_history}", "[user]: hi"));
    assert!(!p.contains("{execution_history}"));
    let existing = vec![memory("one", true), memory("two", false)];
    let q = TaskMemoryManager::duplicate_check_prompt(&memory("three", true), &existing);
    let expected = DUPLICATE_CHECK_PROMPT
        .replace(
            "{existing_memories}",
            "task_summary: one, approach: look it up, is_correct: true\ntask_summary: two, approach: look it up, is_correct: false",
        )
        .replace("{new_memory}", "task_summary: three, approach: look it up, is_correct: true");
    assert_eq!(q, expected);
    assert_eq!(memory("x", true).to_embedding_text(), "Task: x");
}

#[test]
fn duplicate_verdicts_and_storage() {
    let skip = DuplicateCheckResult { decision: "skip".to_string(), reason: "same".to_string() };
    let keep = DuplicateCheckResult { decision: "ADD".to_string(), reason: "new".to_string() };
    assert!(skip.is_duplicate());
    assert!(TaskMemoryManager::duplicate_verdict(Some(skip)));
    assert!(!TaskMemoryManager::duplicate_verdict(Some(keep)));
    assert!(!TaskMemoryManager::duplicate_verdict(None));
    assert!(TaskMemoryManager::should_store(0, true));
    assert!(TaskMemoryManager::should_store(2, false));
    assert!(!TaskMemoryManager::should_store(2, true));
    let m = TaskMemoryManager::new("chat", "embed");
    assert_eq!(m.chat_model, "chat");
    assert_eq!(m.embedding_model, "embed");
}

#[test]
fn memories_are_injected_after_the_latest_user_message_is_found() {
    let mut request = LlmRequest {
        instructions: vec!["base".to_string()],
        contents: vec![
            ContentItem::Message { role: "user".to_string(), content: "first".to_string() },
            ContentItem::Message { role: "assistant".to_string(), content: "a".to_string() },
            ContentItem::Message { role: "user".to_string(), content: "second".to_string() },
            ContentItem::Message { role: "assistant".to_string(), content: "b".to_string() },
        ],
    };
    assert_eq!(MemoryInjectionCallback::latest_user_message(&request).as_deref(), Some("second"));
    MemoryInjectionCallback::inject(&mut request, &Vec::new());
    assert_eq!(request.instructions.len(), 1);
    MemoryInjectionCallback::inject(&mut request, &vec![memory("sum", true)]);
    assert_eq!(request.instructions.len(), 2);
    assert!(request.instructions[1].starts_with("以下是过去解决类似问题的记录：\n\n<PAST_EXPERIENCES>\n[记录 1]"));
    assert!(request.instructions[1].ends_with("\n</PAST_EXPERIENCES>\n\n请参考成功的方法，避免重复失败的尝试。"));
    assert_eq!(MemoryInjectionCallback::new().top_k, 3);
    assert_eq!(MemoryInjectionCallback::new().with_top_k(7).top_k, 7);
    let none = LlmRequest { instructions: Vec::new(), contents: Vec::new() };
    assert!(MemoryInjectionCallback::latest_user_message(&none).is_none());
}

#[test]
fn commands_are_read_from_trimmed_lines() {
    assert!(matches!(parse_command("   "), Command::Empty));
    assert!(matches!(parse_command(" /help "), Command::Help));
    assert!(matches!(parse_command("/exit"), Command::Quit));
    assert!(matches!(parse_command("/quit"), Command::Quit));
    assert!(matches!(parse_command("/new"), Command::NewSession));
    assert!(matches!(parse_command("/session"), Command::ShowSession));
    assert!(matches!(parse_command("/what now"), Command::Unknown(u) if u == "/what now"));
    assert!(matches!(parse_command("  2 + 2? "), Command::Prompt(p) if p == "2 + 2?"));
}

#[test]
fn answers_to_held_back_calls() {
    let pending = PendingToolCall {
        confirmation_message: "ok?".to_string(),
        tool_call: ToolCall {
            tool_call_id: "c1".to_string(),
            name: "delete_file".to_string(),
            arguments: "{}".to_string(),
        },
    };
    let yes = confirmation_from_answer(&pending, " Y\n");
    assert!(yes.approved);
    assert!(yes.reason.is_none());
    assert_eq!(yes.tool_call_id, "c1");
    let no = confirmation_from_answer(&pending, "yes");
    assert!(!no.approved);
    assert_eq!(no.reason.as_deref(), Some("用户拒绝了这次操作"));
    assert!(no.modified_arguments.is_none());
}

#[test]
fn session_ids_and_result_lines() {
    let id = new_session_id();
    assert_eq!(id.len(), 36);
    assert_eq!(short_session_id(&id), &id[..8]);
    assert_eq!(short_session_id("abc"), "abc");
    assert_eq!(short_session_id("1234567é"), "1234567é");

    let mut context = ExecutionContext::new(Session::new("s".to_string(), None));
    context.increment_step();
    context.usage.add(3, 4, 7);
    let other = Event::new(
        "someone-else",
        "agent",
        vec![ContentItem::ToolCall(ToolCall { tool_call_id: "o".to_string(), name: "x".to_string(), arguments: "{}".to_string() })],
    );
    context.add_event(other);
    let mine = Event::new(
        &context.execution_id.clone(),
        "tool",
        vec![
            ContentItem::ToolCall(ToolCall { tool_call_id: "c".to_string(), name: "calc".to_string(), arguments: "{\"x\":1}".to_string() }),
            ContentItem::Message { role: "assistant".to_string(), content: "skip".to_string() },
            ContentItem::ToolResult {
                tool_call_id: "c".to_string(),
                name: "calc".to_string(),
                status: ToolResultStatus::Success,
                content: "z".repeat(501),
            },
        ],
    );
    context.add_event(mine);
    let trace = tool_trace(&context);
    assert_eq!(trace.len(), 2);
    assert_eq!(trace[0], "\n🔧 调用工具：calc\n   参数：{\"x\":1}");
    assert_eq!(trace[1], format!("   工具结果：calc [Success]\n   {}...", "z".repeat(500)));

    let total = add_usage(TokenUsage::zero(), context.usage);
    let result = AgentResult::complete(context, "done".to_string());
    assert_eq!(result_answer_line(&result), "\n助手：done");
    assert_eq!(
        result_usage_line(&result, &total),
        "（本次 1 步，本次 7 tokens；会话累计 prompt=3 completion=4 total=7 tokens）"
    );
}

fn json_text(v: &JsonValue) -> String {
    match v {
        JsonValue::Null => "null".to_string(),
        JsonValue::Bool(b) => b.to_string(),
        JsonValue::Number(n) => n.clone(),
        JsonValue::String(s) => format!("{s:?}"),
        JsonValue::Array(items) => format!("[{}]", items.iter().map(json_text).collect::<Vec<_>>().join(",")),
        JsonValue::Object(m) => format!(
            "{{{}}}",
            m.iter().map(|(k, v)| format!("{k:?}:{}", json_text(v))).collect::<Vec<_>>().join(",")
        ),
    }
}

#[test]
fn strict_schema_is_unchanged_by_a_second_pass() {
    let mut schema = JsonValue::Object(vec![
        ("type".to_string(), JsonValue::String("object".to_string())),
        (
            "properties".to_string(),
            JsonValue::Object(vec![(
                "inner".to_string(),
                JsonValue::Object(vec![
                    ("type".to_string(), JsonValue::String("object".to_string())),
                    ("properties".to_string(), JsonValue::Object(vec![("x".to_string(), JsonValue::Null)])),
                ]),
            )]),
        ),
        ("items".to_string(), JsonValue::Array(vec![JsonValue::Number("1".to_string())])),
    ]);
    enforce_strict_json_schema(&mut schema);
    let once = json_text(&schema);
    enforce_strict_json_schema(&mut schema);
    assert_eq!(json_text(&schema), once);
    assert!(once.contains("\"required\":[\"x\"]"));
}
