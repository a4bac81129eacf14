use llm_wiki::agent_chat::{response_for, tool_call_text, tool_defs, validate_shell_mode, McpToolDef};
use llm_wiki::agent_chat::{build_system_prompt, export_conversation_markdown, find_skill_template, Message};
use llm_wiki::store::{AgentMemoryRecord, AgentSkillRecord};
use llm_wiki::agent_chat::{
    approval_message, fetched_text, mcp_server_for, new_cancel_token, page_too_large_message,
    pending_write_id_from, pending_write_text, route_tool_call, shell_output_text, tool_args,
    tool_result_preview, unknown_tool_message, web_results_text, ApprovalOutcome, ToolRequest,
    WebSearchHit,
};
use llm_wiki::agent_chat::{keep_tool, ChatTurnState, TurnStep, CHAT_MAX_ITERATIONS};
use llm_wiki::json::{parse_json, JsonValue};
use llm_wiki::llm::FinishReason;
use std::sync::atomic::Ordering;

fn now_millis_text() -> String {
    let d = std::time::SystemTime::now()
        .duration_since(std::time::UNIX_EPOCH)
        .unwrap();
    d.as_millis().to_string()
}

#[test]
fn test_new_cancel_token_starts_false() {
    let token = new_cancel_token();
    assert!(!token.load(Ordering::Relaxed));
    token.store(true, Ordering::Relaxed);
    assert!(token.load(Ordering::Relaxed));
}

#[test]
fn pending_write_id_is_nonzero() {
    let id = pending_write_id_from(&now_millis_text());
    assert!(id > 0, "pending_write_id should be a positive timestamp");
}

#[test]
fn pending_write_id_parses_or_falls_back_to_zero() {
    assert_eq!(pending_write_id_from("1700000000123"), 1700000000123);
    assert_eq!(pending_write_id_from("-42"), -42);
    assert_eq!(pending_write_id_from("+7"), 7);
    assert_eq!(pending_write_id_from("abc"), 0);
    assert_eq!(pending_write_id_from(""), 0);
    assert_eq!(pending_write_id_from("9223372036854775808"), 0);
    assert_eq!(pending_write_id_from("-9223372036854775808"), i64::MIN);
}

#[test]
fn dispatch_unknown_tool_returns_error_message() {
    let tool_name = "nonexistent_tool_xyz";
    let expected_prefix = format!("未知工具: {tool_name}");
    let msg = unknown_tool_message(tool_name);
    assert_eq!(msg, expected_prefix);
    let args = tool_args("{}");
    match route_tool_call(tool_name, &args) {
        Ok(ToolRequest::External { name }) => assert_eq!(name, tool_name),
        _ => panic!("an unknown tool is routed to the external handler"),
    }
}

#[test]
fn tool_args_fall_back_to_empty_object() {
    match tool_args("not json") {
        JsonValue::Object(fields) => assert!(fields.is_empty()),
        _ => panic!("expected an empty object"),
    }
    match tool_args("{\"command\": \"ls\"}") {
        JsonValue::Object(fields) => assert_eq!(fields.len(), 1),
        _ => panic!("expected an object"),
    }
}

#[test]
fn run_shell_route_reads_command_and_timeout() {
    let args = parse_json("{\"command\": \"  ls -la \", \"timeout_ms\": 5000}").unwrap();
    match route_tool_call("run_shell", &args) {
        Ok(ToolRequest::RunShell { command, timeout_ms }) => {
            assert_eq!(command, "ls -la");
            assert_eq!(timeout_ms, 5000);
        }
        _ => panic!("expected run_shell"),
    }
    let args = parse_json("{\"command\": \"pwd\"}").unwrap();
    match route_tool_call("run_shell", &args) {
        Ok(ToolRequest::RunShell { timeout_ms, .. }) => assert_eq!(timeout_ms, 30000),
        _ => panic!("expected run_shell"),
    }
    let args = parse_json("{\"command\": \"   \"}").unwrap();
    match route_tool_call("run_shell", &args) {
        Err(e) => assert_eq!(e, "错误：run_shell 需要 'command' 参数"),
        _ => panic!("expected an error"),
    }
}

#[test]
fn write_and_edit_routes_check_their_arguments() {
    let args = parse_json("{\"path\": \"wiki/a.md\"}").unwrap();
    match route_tool_call("write_wiki", &args) {
        Err(e) => assert_eq!(e, "错误：write_wiki 需要 'content' 参数"),
        _ => panic!("expected an error"),
    }
    match route_tool_call("edit_wiki", &args) {
        Err(e) => assert_eq!(e, "错误：edit_wiki 需要 'old_str' 参数"),
        _ => panic!("expected an error"),
    }
    let args = parse_json("{\"path\": \"wiki/a.md\", \"old_str\": \"x\"}").unwrap();
    match route_tool_call("edit_wiki", &args) {
        Ok(ToolRequest::EditWiki { path, old_str, new_str }) => {
            assert_eq!(path, "wiki/a.md");
            assert_eq!(old_str, "x");
            assert_eq!(new_str, "");
        }
        _ => panic!("expected edit_wiki"),
    }
    let empty = tool_args("{}");
    match route_tool_call("fetch_url", &empty) {
        Err(e) => assert_eq!(e, "错误：fetch_url 需要 'url' 参数"),
        _ => panic!("expected an error"),
    }
    match route_tool_call("search_wiki", &parse_json("{\"query\": \"q\"}").unwrap()) {
        Ok(ToolRequest::SearchWiki { query, top_k }) => {
            assert_eq!(query, "q");
            assert_eq!(top_k, 5);
        }
        _ => panic!("expected search_wiki"),
    }
}

#[test]
fn mcp_handler_kind_names_the_server() {
    assert_eq!(mcp_server_for(Some("mcp:github")), Some("github".to_string()));
    assert_eq!(mcp_server_for(Some("builtin")), None);
    assert_eq!(mcp_server_for(None), None);
}

#[test]
fn shell_output_joins_parts() {
    assert_eq!(shell_output_text(false, None, "", ""), "(no output)");
    assert_eq!(shell_output_text(false, None, "out", "err"), "out\n--- stderr ---\nerr");
    assert_eq!(shell_output_text(false, None, "", "err"), "--- stderr ---\nerr");
    assert_eq!(
        shell_output_text(true, Some("denied"), "", ""),
        "blocked: denied\n"
    );
    assert_eq!(shell_output_text(true, None, "x", ""), "blocked: \nx");
}

#[test]
fn pending_write_text_names_id_and_path() {
    assert_eq!(
        pending_write_text("write_wiki", 1700000000123, "/v/wiki/a.md"),
        "write_wiki pending approval id=1700000000123 path=/v/wiki/a.md"
    );
    assert_eq!(
        pending_write_text("edit_wiki", -5, "p"),
        "edit_wiki pending approval id=-5 path=p"
    );
}

#[test]
fn web_results_are_numbered_lines() {
    assert_eq!(web_results_text("brave", &[]), "(no results)");
    let hits = vec![
        WebSearchHit {
            title: "A".to_string(),
            url: "https://a".to_string(),
            snippet: "first".to_string(),
        },
        WebSearchHit {
            title: "B".to_string(),
            url: "https://b".to_string(),
            snippet: "x".repeat(250),
        },
    ];
    let got = web_results_text("brave", &hits);
    let expected = format!(
        "[via brave]\n1. [A](https://a) — first\n2. [B](https://b) — {}",
        "x".repeat(200)
    );
    assert_eq!(got, expected);
}

#[test]
fn fetch_limits() {
    assert_eq!(page_too_large_message(None), None);
    assert_eq!(page_too_large_message(Some(5 * 1024 * 1024)), None);
    assert_eq!(
        page_too_large_message(Some(5 * 1024 * 1024 + 1)),
        Some("页面过大（5242881 字节），拒绝获取".to_string())
    );
    assert_eq!(fetched_text(&"字".repeat(9000)).chars().count(), 8000);
    assert_eq!(fetched_text("short"), "short");
}

#[test]
fn approval_outcomes_become_tool_messages() {
    assert_eq!(approval_message(ApprovalOutcome::Approved("ok".to_string())), "ok");
    assert_eq!(
        approval_message(ApprovalOutcome::Rejected("no".to_string())),
        "写操作被拒绝: no"
    );
    assert_eq!(approval_message(ApprovalOutcome::ChannelClosed), "审批 channel 关闭");
    assert_eq!(approval_message(ApprovalOutcome::TimedOut), "审批超时（10分钟）");
    assert_eq!(tool_result_preview(&"a".repeat(300)).len(), 200);
}

#[test]
fn turn_finishes_by_reason() {
    let t = ChatTurnState::new();
    assert!(matches!(t.on_completion(&FinishReason::ToolCalls), TurnStep::RunTools));
    assert!(matches!(t.on_completion(&FinishReason::Stop), TurnStep::Done { note: None }));
    assert!(matches!(
        t.on_completion(&FinishReason::Other("x".to_string())),
        TurnStep::Done { note: None }
    ));
    match t.on_completion(&FinishReason::Length) {
        TurnStep::Done { note: Some(n) } => assert_eq!(n, "truncated"),
        _ => panic!("expected done"),
    }
}

#[test]
fn turn_wraps_up_after_budget_then_stops() {
    let mut t = ChatTurnState::new();
    for _ in 0..CHAT_MAX_ITERATIONS - 1 {
        assert!(matches!(t.after_tools(), TurnStep::CallModel));
        assert!(!t.wrap_up);
    }
    assert!(matches!(t.after_tools(), TurnStep::CallModel));
    assert!(t.wrap_up);
    assert!(!keep_tool("search_wiki", "on", t.wrap_up));
    match t.after_tools() {
        TurnStep::Done { note: Some(n) } => assert_eq!(n, "max iterations reached"),
        _ => panic!("expected done"),
    }
}

#[test]
fn shell_tool_hidden_when_shell_mode_off() {
    assert!(!keep_tool("run_shell", "off", false));
    assert!(keep_tool("run_shell", "ask", false));
    assert!(keep_tool("read_wiki", "off", false));
}

#[test]
fn conversation_export_skips_blank_and_tool_messages() {
    fn msg(role: &str, content: Option<&str>) -> Message {
        Message {
            id: 1,
            conversation_id: 1,
            role: role.to_string(),
            content: content.map(str::to_string),
            tool_calls_json: None,
            tool_calls: None,
            tool_call_id: None,
            tool_name: None,
            reasoning_content: None,
            sequence: 1,
            created_at: "t".to_string(),
        }
    }
    let ms = vec![
        msg("system", Some("sys")),
        msg("user", Some("  hi  ")),
        msg("tool", Some("out")),
        msg("assistant", Some("")),
        msg("assistant", Some("hello")),
    ];
    assert_eq!(
        export_conversation_markdown("Chat", &ms),
        "# Chat\n\n**用户**\n\nhi\n\n---\n\n**AI**\n\nhello\n\n"
    );
    assert_eq!(export_conversation_markdown("Empty", &[]), "# Empty\n\n");
}

#[test]
fn system_prompt_parts() {
    let skills = vec![
        AgentSkillRecord {
            id: 1,
            skill_key: "writer".to_string(),
            prompt_template: "Write well.".to_string(),
            version: 1,
            created_at: "t".to_string(),
            updated_at: "t".to_string(),
        },
        AgentSkillRecord {
            id: 2,
            skill_key: "empty".to_string(),
            prompt_template: String::new(),
            version: 1,
            created_at: "t".to_string(),
            updated_at: "t".to_string(),
        },
    ];
    assert_eq!(find_skill_template(&skills, "writer"), Some("Write well.".to_string()));
    assert_eq!(find_skill_template(&skills, "empty"), None);
    assert_eq!(find_skill_template(&skills, "none"), None);
    let mems = vec![AgentMemoryRecord {
        id: 1,
        run_id: None,
        memory_key: "lang".to_string(),
        memory_value: "zh".to_string(),
        created_at: "t".to_string(),
        updated_at: "t".to_string(),
    }];
    let p = build_system_prompt("2024年01月02日", Some("Write well."), Some(&mems));
    assert!(p.contains("当前日期：2024年01月02日。"));
    assert!(p.ends_with("\n\nWrite well.\n\n## 记忆\n- lang: zh"));
    let q = build_system_prompt("d", None, Some(&[]));
    assert!(!q.contains("记忆"));
}

#[test]
fn mcp_response_lines() {
    assert!(response_for("   ", 1).is_none());
    assert!(response_for("not json", 1).is_none());
    assert!(response_for(r#"{"jsonrpc":"2.0","method":"notifications/x"}"#, 1).is_none());
    assert!(response_for(r#"{"jsonrpc":"2.0","id":2,"result":{}}"#, 1).is_none());
    assert!(response_for(r#" {"jsonrpc":"2.0","id":1,"result":{}} "#, 1).is_some());
}

#[test]
fn mcp_tool_answers() {
    let ok = parse_json(r#"{"content":[{"type":"text","text":"a"},{"type":"image"},{"type":"text","text":"b"}]}"#).unwrap();
    assert_eq!(tool_call_text(&ok), Some(Ok("a\nb".to_string())));
    let err = parse_json(r#"{"content":[{"type":"text","text":"bad"}],"isError":true}"#).unwrap();
    assert_eq!(tool_call_text(&err), Some(Err("bad".to_string())));
    let none = parse_json(r#"{"content":[]}"#).unwrap();
    assert_eq!(tool_call_text(&none), None);
    let d = McpToolDef {
        server_name: "s".to_string(),
        tool_name: "t".to_string(),
        description: String::new(),
        parameters_schema: "{}".to_string(),
    };
    assert_eq!(d.tool_name, "t");
}

#[test]
fn mcp_tool_list_entries() {
    let result = parse_json(
        r#"{"tools":[{"name":"read","description":"Read a file","inputSchema":{"type":"object"}},{"description":"no name"},{"name":"ping"}]}"#,
    )
    .unwrap();
    let schemas = vec![Some(r#"{"type":"object"}"#.to_string()), None, None];
    let defs = tool_defs("fs", &result, &schemas).unwrap();
    assert_eq!(defs.len(), 2);
    assert_eq!(defs[0].server_name, "fs");
    assert_eq!(defs[0].tool_name, "read");
    assert_eq!(defs[0].description, "Read a file");
    assert_eq!(defs[0].parameters_schema, r#"{"type":"object"}"#);
    assert_eq!(defs[1].tool_name, "ping");
    assert_eq!(defs[1].description, "");
    assert_eq!(defs[1].parameters_schema, r#"{"type":"object","properties":{}}"#);
    let bad = parse_json(r#"{"tools":{}}"#).unwrap();
    assert_eq!(tool_defs("fs", &bad, &vec![]).unwrap_err(), "MCP tools/list 响应格式异常");
}

#[test]
fn shell_modes_are_checked() {
    assert!(validate_shell_mode("off").is_ok());
    assert!(validate_shell_mode("yolo").is_ok());
    assert!(validate_shell_mode("approval").is_ok());
    assert_eq!(
        validate_shell_mode("always").unwrap_err(),
        "无效 shell_mode: always，必须为 off / yolo / approval"
    );
}
