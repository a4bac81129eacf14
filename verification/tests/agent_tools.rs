use llm_wiki::agent_tools::{parse_agent_loop_decision, parse_skill_json, str_arg, AgentToolAction};
use llm_wiki::json::parse_json;

#[test]
fn parse_agent_loop_decision_supports_single_action_shape() {
    let raw = r#"{"done":false,"note":"先检索","action":{"tool":"search_wiki","query":"actor","limit":3}}"#;
    let decision = parse_agent_loop_decision(raw).expect("应能解析决策");
    assert!(!decision.done);
    assert_eq!(decision.note.as_deref(), Some("先检索"));
    match decision.action {
        Some(AgentToolAction::SearchWiki { query, limit }) => {
            assert_eq!(query, "actor");
            assert_eq!(limit, 3);
        }
        _ => panic!("应解析为 search_wiki"),
    }
}

#[test]
fn parse_agent_loop_decision_supports_actions_array_fallback() {
    let raw = r#"{"done":false,"actions":[{"tool":"read_wiki","path":"wiki/a.md","max_chars":900}]}"#;
    let decision = parse_agent_loop_decision(raw).expect("应能解析决策");
    match decision.action {
        Some(AgentToolAction::ReadWiki { path, max_chars }) => {
            assert_eq!(path, "wiki/a.md");
            assert_eq!(max_chars, 900);
        }
        _ => panic!("应解析为 read_wiki"),
    }
}

#[test]
fn parse_agent_loop_decision_reads_done_and_final_answer() {
    let raw = r#"{"done":true,"final":"已完成"}"#;
    let decision = parse_agent_loop_decision(raw).expect("应能解析决策");
    assert!(decision.done);
    assert_eq!(decision.final_answer.as_deref(), Some("已完成"));
    assert!(decision.action.is_none());
}

#[test]
fn parse_agent_loop_decision_supports_write_wiki() {
    let raw = r##"{"done":false,"action":{"tool":"write_wiki","path":"wiki/a.md","content":"# A"}}"##;
    let decision = parse_agent_loop_decision(raw).expect("应能解析决策");
    match decision.action {
        Some(AgentToolAction::WriteWiki { path, content }) => {
            assert_eq!(path, "wiki/a.md");
            assert_eq!(content, "# A");
        }
        _ => panic!("应解析为 write_wiki"),
    }
}

#[test]
fn decision_embedded_in_prose_and_clamped() {
    let raw = "好的，计划如下：\n{\"action\":{\"tool\":\"run_shell\",\"command\":\"  ls  \",\"timeout_ms\":1}}\n谢谢";
    let decision = parse_agent_loop_decision(raw).expect("should parse the embedded object");
    assert!(!decision.done);
    match decision.action {
        Some(AgentToolAction::RunShell { command, timeout_ms }) => {
            assert_eq!(command, "ls");
            assert_eq!(timeout_ms, 3000);
        }
        _ => panic!("expected run_shell"),
    }
}

#[test]
fn decision_defaults_and_fallback_keys() {
    let raw = r#"{"answer":"ok","notes":"n","action":{"tool":"search_wiki","query":" "},"actions":[{"tool":"search_wiki","query":"q","limit":99}]}"#;
    let decision = parse_agent_loop_decision(raw).unwrap();
    assert_eq!(decision.final_answer.as_deref(), Some("ok"));
    assert_eq!(decision.note.as_deref(), Some("n"));
    match decision.action {
        Some(AgentToolAction::SearchWiki { query, limit }) => {
            assert_eq!(query, "q");
            assert_eq!(limit, 8);
        }
        _ => panic!("expected the fallback action"),
    }
}

#[test]
fn undecodable_reply_gives_none() {
    assert!(parse_agent_loop_decision("no json here").is_none());
    assert!(parse_agent_loop_decision("} {").is_none());
}

#[test]
fn unknown_tool_gives_no_action() {
    let d = parse_agent_loop_decision(r#"{"action":{"tool":"format_disk"}}"#).unwrap();
    assert!(d.action.is_none());
    let d = parse_agent_loop_decision(r#"{"action":{"tool":"read_wiki","page_path":"wiki/b.md"}}"#).unwrap();
    match d.action {
        Some(AgentToolAction::ReadWiki { path, max_chars }) => {
            assert_eq!(path, "wiki/b.md");
            assert_eq!(max_chars, 1200);
        }
        _ => panic!("expected read_wiki"),
    }
}

#[test]
fn str_arg_returns_value_for_present_key() {
    let args = parse_json(r#"{"command": "ls -la"}"#).unwrap();
    assert_eq!(str_arg(&args, "command"), Some("ls -la".to_string()));
}

#[test]
fn str_arg_returns_none_for_missing_key() {
    let args = parse_json(r#"{"other": "val"}"#).unwrap();
    assert_eq!(str_arg(&args, "command"), None);
}

#[test]
fn str_arg_trims_and_rejects_whitespace_only() {
    let args = parse_json(r#"{"command": "   "}"#).unwrap();
    assert_eq!(str_arg(&args, "command"), None);
}

#[test]
fn str_arg_trims_surrounding_whitespace() {
    let args = parse_json(r#"{"query": "  hello world  "}"#).unwrap();
    assert_eq!(str_arg(&args, "query"), Some("hello world".to_string()));
}

#[test]
fn str_arg_returns_none_for_non_string_value() {
    let args = parse_json(r#"{"timeout_ms": 5000}"#).unwrap();
    assert_eq!(str_arg(&args, "timeout_ms"), None);
}

#[test]
fn skill_json_needs_name_and_prompt() {
    assert_eq!(
        parse_skill_json(r#"{"name":"  Writer ","system_prompt":" Be brief. "}"#),
        Ok(("Writer".to_string(), "Be brief.".to_string()))
    );
    assert_eq!(
        parse_skill_json(r#"{"name":"  ","system_prompt":"x"}"#),
        Err("Skill JSON 缺少有效的 'name' 字段".to_string())
    );
    assert_eq!(
        parse_skill_json(r#"{"name":"w"}"#),
        Err("Skill JSON 缺少有效的 'system_prompt' 字段".to_string())
    );
    let err = parse_skill_json("not json").unwrap_err();
    assert!(err.starts_with("JSON 解析失败: "));
    assert!(err.len() > "JSON 解析失败: ".len());
}
