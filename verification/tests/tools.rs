use ai_agent::agent::confirmation::confirmation_message;
use ai_agent::memory::task_memory::TaskMemory;
use ai_agent::tools::calculator::CalculatorTool;
use ai_agent::tools::file_delete::DeleteFileTool;
use ai_agent::tools::file_list::{list, DirEntryInfo, ListError, PathKind};
use ai_agent::tools::file_read::{
    lines_of, markdown_from_table, number_lines, read, ReadFileArgs, ReadFileError,
};
use ai_agent::tools::mcp::McpTool;
use ai_agent::tools::recall_memory::RecallMemoryTool;
use ai_agent::tools::web_search::{
    default_max_results, default_topic, web_search_tool_definition, TavilyRequest, WebSearchArgs,
    WebSearchTool, WEB_SEARCH_PARAMETERS,
};

fn args(path: &str, start_line: usize, end_line: i64) -> ReadFileArgs {
    ReadFileArgs { file_path: path.to_string(), start_line, end_line }
}

#[test]
fn text_files_are_numbered_like_the_format_macro() {
    let text = "alpha\nbeta\r\ngamma\n".to_string();
    let shown = read(&args("notes.txt", 1, -1), Some(text.clone())).expect("text");
    assert_eq!(shown, "   1 | alpha\n   2 | beta\n   3 | gamma\n");
    let middle = read(&args("notes.txt", 2, 2), Some(text.clone())).expect("text");
    assert_eq!(middle, "   2 | beta\n");
    assert_eq!(read(&args("notes.txt", 0, 99), Some(text.clone())).unwrap(), shown);
    assert_eq!(read(&args("notes.txt", 3, 1), Some(text)).unwrap(), "");
    assert_eq!(lines_of("a\n\nb"), vec!["a", "", "b"]);
    assert_eq!(number_lines("x", 1, -1), format!("{:>4} | {}\n", 1, "x"));
}

#[test]
fn a_missing_file_is_an_error_with_its_path() {
    let err = read(&args("gone.txt", 1, -1), None).expect_err("missing");
    assert!(matches!(&err, ReadFileError::NotFound(p) if p == "gone.txt"));
    assert_eq!(err.message(), "File not found: gone.txt");
}

#[test]
fn csv_files_become_markdown_tables() {
    let csv = "name,age\nann,3\nbob,4\n".to_string();
    let table = read(&args("people.csv", 1, -1), Some(csv)).expect("csv");
    assert_eq!(table, "| name | age |\n|---|---|\n| ann | 3 |\n| bob | 4 |\n");
    let ragged = read(&args("bad.csv", 1, -1), Some("a,b\n1,2,3\n".to_string()));
    assert!(matches!(ragged, Err(ReadFileError::Csv(_))));
    let headers = vec!["x".to_string()];
    assert_eq!(markdown_from_table(&headers, &Vec::new()), "| x |\n|---|\n");
}

#[test]
fn listings_put_directories_first_in_name_order() {
    let entries = vec![
        DirEntryInfo { name: "b.txt".to_string(), is_dir: false },
        DirEntryInfo { name: ".hidden".to_string(), is_dir: false },
        DirEntryInfo { name: "src".to_string(), is_dir: true },
        DirEntryInfo { name: "a.txt".to_string(), is_dir: false },
        DirEntryInfo { name: "docs".to_string(), is_dir: true },
    ];
    let text = list("proj", PathKind::Directory, &entries).expect("dir");
    assert_eq!(text, "Directory: proj\n. docs/\n. src/\n. a.txt\n. b.txt\n");
    let missing = list("nope", PathKind::Missing, &Vec::new()).expect_err("missing");
    assert_eq!(missing.message(), "Path not found: nope");
    let file = list("f", PathKind::NotDirectory, &Vec::new()).expect_err("file");
    assert!(matches!(&file, ListError::NotADirectory(p) if p == "f"));
    assert_eq!(file.message(), "Not a directory: f");
}

#[test]
fn delete_tool_texts() {
    let tool = DeleteFileTool;
    assert_eq!(tool.name(), "delete_file");
    assert!(tool.requires_confirmation());
    assert_eq!(DeleteFileTool::deleted_message("a.txt"), "File a.txt has been deleted.");
    assert_eq!(DeleteFileTool::failure_message("a.txt", "denied"), "Failed to delete a.txt: denied");
    assert_eq!(
        confirmation_message(tool.confirmation_message_template(), tool.name(), r#"{"file_path":"a.txt"}"#),
        r#"即将执行不可逆的文件删除操作：{"file_path":"a.txt"}，是否批准？"#
    );
    assert_eq!(CalculatorTool.name(), "calculator");
}

#[test]
fn mcp_tools_wait_for_approval_only_for_delete_expense() {
    let t = McpTool::new("delete_expense", None, "{}".to_string());
    assert!(t.requires_confirmation);
    assert_eq!(t.description, "");
    let u = McpTool::new("list_expenses", Some("Lists"), "{}".to_string());
    assert!(!u.requires_confirmation);
    assert_eq!(u.description, "Lists");
    assert_eq!(
        confirmation_message(t.confirmation_message_template(), &t.name, "{\"id\":1}"),
        "即将调用费用工具 'delete_expense'，参数为 {\"id\":1}。这是不可逆操作，是否继续？"
    );
}

#[test]
fn web_search_request_and_definition() {
    assert_eq!(default_max_results(), 5);
    assert_eq!(default_topic(), "general");
    let a = WebSearchArgs {
        query: "verus".to_string(),
        max_results: 3,
        topic: "news".to_string(),
        time_range: Some("week".to_string()),
    };
    let r = TavilyRequest::from_args("key", &a);
    assert_eq!(r.api_key, "key");
    assert_eq!(r.query, "verus");
    assert_eq!(r.max_results, 3);
    assert_eq!(r.search_depth, "advanced");
    assert!(r.include_answer);
    assert_eq!(r.time_range.as_deref(), Some("week"));
    let d = web_search_tool_definition();
    assert_eq!(d.name, WebSearchTool.name());
    assert_eq!(d.parameters, WEB_SEARCH_PARAMETERS);
    let schema: serde_json::Value = serde_json::from_str(&d.parameters).expect("valid json");
    assert_eq!(schema["properties"]["max_results"]["default"], default_max_results());
    assert_eq!(WebSearchTool::error_output("timeout"), "Error: timeout");
}

#[test]
fn recalled_memories_are_numbered_blocks() {
    let memories = vec![
        TaskMemory {
            task_summary: "sum".to_string(),
            approach: "add".to_string(),
            final_answer: "3".to_string(),
            is_correct: true,
            error_analysis: Some("ignored".to_string()),
        },
        TaskMemory {
            task_summary: "div".to_string(),
            approach: "guess".to_string(),
            final_answer: "0".to_string(),
            is_correct: false,
            error_analysis: Some("divided by zero".to_string()),
        },
    ];
    let text = RecallMemoryTool::format_memories(&memories);
    assert_eq!(
        text,
        "[记录 1]\n- 问题: sum\n- 方法: add\n- 答案: 3\n- 结果: 正确\n\n[记录 2]\n- 问题: div\n- 方法: guess\n- 答案: 0\n- 结果: 错误\n- 错误分析: divided by zero"
    );
    assert_eq!(RecallMemoryTool::format_memories(&Vec::new()), "");
    let tool = RecallMemoryTool;
    assert_eq!(tool.name(), "recall_memory");
    let schema: serde_json::Value = serde_json::from_str(tool.parameters()).expect("valid json");
    assert_eq!(schema["required"][0], "query");
}
