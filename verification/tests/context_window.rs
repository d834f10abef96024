use ai_agent::agent::event::{ContentItem, ToolCall, ToolResultStatus};
use ai_agent::agent::llm_request::LlmRequest;
use ai_agent::callback::context_optimizer::compaction::Compaction;
use ai_agent::callback::context_optimizer::sliding_window::SlidingWindow;
use ai_agent::callback::context_optimizer::summarization::{
    format_history, summarization_prompt, Summarization,
};
use ai_agent::callback::context_optimizer::{
    countable_str, is_countable, WHITE_SPACE_RUN_LIMIT,
    count_tokens, find_safe_start, first_user_message, is_below_threshold, remove_range,
    try_count_tokens, ContextOptimizer,
};
use ai_agent::session::model::State;

fn user(text: &str) -> ContentItem {
    ContentItem::Message { role: "user".to_string(), content: text.to_string() }
}

fn assistant(text: &str) -> ContentItem {
    ContentItem::Message { role: "assistant".to_string(), content: text.to_string() }
}

fn call(id: &str, name: &str, arguments: &str) -> ContentItem {
    ContentItem::ToolCall(ToolCall {
        tool_call_id: id.to_string(),
        name: name.to_string(),
        arguments: arguments.to_string(),
    })
}

fn result(id: &str, name: &str, content: &str) -> ContentItem {
    ContentItem::ToolResult {
        tool_call_id: id.to_string(),
        name: name.to_string(),
        status: ToolResultStatus::Success,
        content: content.to_string(),
    }
}

fn content_of(item: &ContentItem) -> &str {
    match item {
        ContentItem::Message { content, .. } => content,
        ContentItem::ToolResult { content, .. } => content,
        ContentItem::ToolCall(c) => &c.arguments,
    }
}

fn request(contents: Vec<ContentItem>) -> LlmRequest {
    LlmRequest { instructions: Vec::new(), contents }
}

#[test]
fn token_count_adds_four_per_entry() {
    let mut r = request(vec![user("hello world"), user("")]);
    assert_eq!(count_tokens("any-model", &r), 6 + 4);
    r.append_instructions("hello world".to_string());
    assert_eq!(count_tokens("other-model", &r), 16);
    assert_eq!(try_count_tokens("m", &r), Some(16));
    assert!(is_below_threshold("m", &r, 17));
    assert!(!is_below_threshold("m", &r, 16));
    let r = request(vec![call("c", "hello", "world")]);
    assert_eq!(count_tokens("m", &r), 4 + 1 + 1);
}

#[test]
fn safe_start_moves_back_to_the_call_of_an_orphaned_result() {
    let contents = vec![
        user("q"),
        call("a", "t", "{}"),
        call("b", "t", "{}"),
        result("a", "t", "ra"),
        result("b", "t", "rb"),
        assistant("done"),
    ];
    assert_eq!(find_safe_start(&contents, 3), 1);
    assert_eq!(find_safe_start(&contents, 4), 1);
    assert_eq!(find_safe_start(&contents, 5), 5);
    assert_eq!(find_safe_start(&contents, 1), 1);
    let orphan = vec![user("q"), result("zz", "t", "r")];
    assert_eq!(find_safe_start(&orphan, 1), 1);
    assert_eq!(first_user_message(&contents), Some(0));
    assert_eq!(first_user_message(&vec![assistant("x")]), None);
}

#[test]
fn remove_range_drains_the_slice() {
    let mut v = vec![user("0"), user("1"), user("2"), user("3")];
    remove_range(&mut v, 1, 3);
    assert_eq!(v.len(), 2);
    assert_eq!(content_of(&v[0]), "0");
    assert_eq!(content_of(&v[1]), "3");
    remove_range(&mut v, 1, 1);
    assert_eq!(v.len(), 2);
}

#[test]
fn compaction_notes_name_the_file_and_the_query() {
    let mut r = request(vec![
        user("q"),
        call("s1", "web_search", r#"{"query":"rust verus"}"#),
        result("s1", "web_search", "many results"),
        result("missing", "read_file", "text"),
        call("r1", "read_file", r#"{"file_path":"a.md"}"#),
        result("r1", "read_file", "recent text"),
    ]);
    Compaction { keep_recent: 2 }.apply(&mut r);
    assert_eq!(
        content_of(&r.contents[2]),
        "Search results for 'rust verus' were already processed. Call web_search again if you need them."
    );
    assert_eq!(
        content_of(&r.contents[3]),
        "File 'unknown' was already read. Call read_file again if you need it."
    );
    assert_eq!(content_of(&r.contents[5]), "recent text");

    let once = r.clone();
    Compaction { keep_recent: 2 }.apply(&mut r);
    for (a, b) in once.contents.iter().zip(r.contents.iter()) {
        assert_eq!(content_of(a), content_of(b));
    }
}

#[test]
fn compaction_keeps_everything_when_keep_recent_covers_it() {
    let mut r = request(vec![call("r1", "read_file", r#"{"file_path":"a"}"#), result("r1", "read_file", "x")]);
    Compaction { keep_recent: 5 }.apply(&mut r);
    assert_eq!(content_of(&r.contents[1]), "x");
}

#[test]
fn sliding_window_keeps_the_first_user_message_and_a_safe_tail() {
    let contents = vec![
        user("q"),
        assistant("a1"),
        call("c", "t", "{}"),
        result("c", "t", "r"),
        assistant("a2"),
        assistant("a3"),
    ];
    let window = SlidingWindow { model: "m".to_string(), token_threshold: 0, window_size: 3 };
    let mut r = request(contents.clone());
    window.apply(&mut r);
    let kept: Vec<&str> = r.contents.iter().map(content_of).collect();
    assert_eq!(kept, vec!["q", "{}", "r", "a2", "a3"]);

    let mut r = request(contents.clone());
    SlidingWindow { model: "m".to_string(), token_threshold: 1_000_000, window_size: 3 }.apply(&mut r);
    assert_eq!(r.contents.len(), 6);

    let mut r = request(contents.clone());
    SlidingWindow { model: "m".to_string(), token_threshold: 0, window_size: 6 }.apply(&mut r);
    assert_eq!(r.contents.len(), 6);

    let mut r = request(vec![assistant("a"), assistant("b"), assistant("c")]);
    SlidingWindow { model: "m".to_string(), token_threshold: 0, window_size: 1 }.apply(&mut r);
    assert_eq!(r.contents.len(), 3);
}

#[test]
fn summarization_plans_then_folds_the_summary_in() {
    let contents = vec![
        user("question"),
        assistant("step one"),
        call("c", "calc", r#"{"x":1}"#),
        result("c", "calc", "2"),
        assistant("step two"),
        assistant("recent"),
    ];
    let summarizer = Summarization { model: "m".to_string(), keep_recent: 1 };
    let mut state = State::new();
    let mut r = request(contents);
    let plan = summarizer.plan(&state, &r).expect("something to summarize");
    assert_eq!(plan.user_idx, 0);
    assert_eq!(plan.summary_start, 1);
    assert_eq!(plan.summary_end, 5);
    assert_eq!(
        plan.history,
        "[assistant]: step one\n[tool call]: calc({\"x\":1})\n[tool result]: calc -> 2\n[assistant]: step two"
    );
    assert!(summarization_prompt(&plan.history).ends_with("Execution history:\n[assistant]: step one\n[tool call]: calc({\"x\":1})\n[tool result]: calc -> 2\n[assistant]: step two"));

    summarizer.finish(&mut state, &mut r, &plan, "did things");
    assert_eq!(r.instructions, vec!["[Summary of earlier progress]\ndid things".to_string()]);
    let kept: Vec<&str> = r.contents.iter().map(content_of).collect();
    assert_eq!(kept, vec!["question", "recent"]);
    assert_eq!(state.last_summary_idx, Some(4));
    assert_eq!(state.context_summary.as_deref(), Some("did things"));

    let mut state2 = State::new();
    state2.context_summary = Some("earlier".to_string());
    let mut r2 = request(vec![user("q"), assistant("a"), assistant("b")]);
    let plan2 = summarizer.plan(&state2, &r2).expect("one item");
    summarizer.finish(&mut state2, &mut r2, &plan2, "later");
    assert_eq!(state2.context_summary.as_deref(), Some("earlier\n\nlater"));
}

#[test]
fn summarization_does_nothing_without_room() {
    let summarizer = Summarization { model: "m".to_string(), keep_recent: 3 };
    let state = State::new();
    assert!(summarizer.plan(&state, &request(vec![user("q"), assistant("a")])).is_none());
    assert!(summarizer.plan(&state, &request(vec![assistant("a"); 5])).is_none());
    let mut state = State::new();
    state.last_summary_idx = Some(3);
    let r = request(vec![user("q"), assistant("a"), assistant("b"), assistant("c"), assistant("d")]);
    assert!(summarizer.plan(&state, &r).is_none());
}

#[test]
fn history_lines_are_cut_to_their_previews() {
    let long: String = "x".repeat(600);
    let items = vec![user(&long), result("c", "t", &"y".repeat(300))];
    let text = format_history(&items, 0, 2);
    let lines: Vec<&str> = text.split('\n').collect();
    assert_eq!(lines[0].len(), "[user]: ".len() + 500);
    assert_eq!(lines[1].len(), "[tool result]: t -> ".len() + 200);
}

#[test]
fn optimizer_reduce_compacts_over_budget_only() {
    let contents = vec![
        user("q"),
        call("r1", "read_file", r#"{"file_path":"a"}"#),
        result("r1", "read_file", "long text"),
        assistant("x"),
        assistant("y"),
        assistant("z"),
        assistant("w"),
    ];
    let optimizer = ContextOptimizer::new("m");
    assert_eq!(optimizer.token_threshold, 20_000);
    let mut r = request(contents.clone());
    assert_eq!(optimizer.reduce(&mut r), Some(false));
    assert_eq!(content_of(&r.contents[2]), "long text");

    let tight = ContextOptimizer { token_threshold: 1, ..ContextOptimizer::new("m") };
    let mut r = request(contents.clone());
    assert_eq!(tight.reduce(&mut r), Some(true));
    assert_eq!(
        content_of(&r.contents[2]),
        "File 'a' was already read. Call read_file again if you need it."
    );

    let no_summary = ContextOptimizer { token_threshold: 1, enable_summarization: false, ..ContextOptimizer::new("m") };
    let mut r = request(contents);
    assert_eq!(no_summary.reduce(&mut r), Some(false));
}

#[test]
fn token_count_grows_by_each_entry() {
    let empty = request(Vec::new());
    assert_eq!(count_tokens("m", &empty), 0);
    let mut r = request(vec![user("hello world")]);
    let before = count_tokens("m", &r);
    r.contents.push(user(""));
    assert_eq!(count_tokens("m", &r), before + 4);
    r.append_instructions("hello world".to_string());
    assert_eq!(count_tokens("m", &r), before + 4 + 6);
    assert!(count_tokens("m", &r) >= 4 * 3);
}

#[test]
fn long_white_space_runs_are_not_countable() {
    let near = format!("a{}b", " ".repeat(WHITE_SPACE_RUN_LIMIT - 1));
    assert!(countable_str(&near));
    let long = format!("a{}b", "\n".repeat(WHITE_SPACE_RUN_LIMIT));
    assert!(!countable_str(&long));
    assert!(countable_str(""));
    assert!(is_countable(&request(vec![user("hello world")])));
    assert!(!is_countable(&request(vec![user("x"), result("c", "t", &long)])));
    let mut r = request(Vec::new());
    r.append_instructions(long);
    assert!(!is_countable(&r));

    let query = format!("\"{}\"", "\\t".repeat(WHITE_SPACE_RUN_LIMIT));
    let contents = vec![
        user("q"),
        call("s1", "web_search", &format!("{{\"query\":{query}}}")),
        result("s1", "web_search", "hits"),
        assistant("a"),
    ];
    let tight = ContextOptimizer { token_threshold: 1, compaction_keep_recent: 1, ..ContextOptimizer::new("m") };
    let mut r = request(contents);
    assert!(is_countable(&r));
    assert_eq!(tight.reduce(&mut r), None);
}
