use ai_agent::agent::event::{canonical_arguments, ContentItem, Event, ToolCall, ToolResultStatus};
use ai_agent::memory::manager::TaskMemoryManager;

#[test]
fn format_execution_history_renders_all_content_kinds() {
    let events = vec![Event::new(
        "exec-1",
        "user",
        vec![
            ContentItem::Message {
                role: "user".to_string(),
                content: "帮我算一下".to_string(),
            },
            ContentItem::ToolCall(ToolCall {
                tool_call_id: "call-1".to_string(),
                name: "calculator".to_string(),
                arguments: canonical_arguments(r#"{"expr": "1+1"}"#),
            }),
            ContentItem::ToolResult {
                tool_call_id: "call-1".to_string(),
                name: "calculator".to_string(),
                status: ToolResultStatus::Success,
                content: "2".to_string(),
            },
        ],
    )];

    let text = TaskMemoryManager::format_execution_history(&events);

    assert!(text.contains("[user]: 帮我算一下"));
    assert!(text.contains("[Tool Call]: calculator("));
    assert!(text.contains("[Tool Result]: calculator -> 2"));
}
