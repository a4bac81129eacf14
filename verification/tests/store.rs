use llm_wiki::store::{
    agent_draft_input, agent_memory_input, agent_skill_input, ask_turn_input, require_text, run_completion,
    run_event_input,
    ask_history_entry, build_auto_session_title, build_fts_match_query, normalize_ask_question,
    normalize_ask_session_title, plan_wiki_search, AskHistoryRecord, WikiSearchPlan,
    ASK_HISTORY_MAX_ENTRIES,
};

#[test]
fn ask_question_normalisation() {
    assert_eq!(normalize_ask_question("  What   Is\tRUST? "), "what is rust?");
    assert_eq!(normalize_ask_question(""), "");
    assert_eq!(ask_history_entry("   "), None);
    assert_eq!(
        ask_history_entry("  Hello  World "),
        Some(("Hello  World".to_string(), "hello world".to_string()))
    );
    assert_eq!(ASK_HISTORY_MAX_ENTRIES, 200);
}

#[test]
fn session_titles() {
    assert_eq!(normalize_ask_session_title("   "), "新对话");
    assert_eq!(normalize_ask_session_title("  Plan  "), "Plan");
    let long = "a".repeat(70);
    assert_eq!(normalize_ask_session_title(&long), "a".repeat(60));
}

#[test]
fn auto_titles_from_first_line() {
    assert_eq!(
        build_auto_session_title("\n\n  First line here \nsecond"),
        Some("First line here".to_string())
    );
    let line = "b".repeat(40);
    assert_eq!(
        build_auto_session_title(&line),
        Some(format!("{}…", "b".repeat(36)))
    );
    assert_eq!(build_auto_session_title(""), None);
    assert_eq!(build_auto_session_title(" \n \r\n"), None);
    assert_eq!(build_auto_session_title("新对话"), None);
}

#[test]
fn fts_query_of_tokens() {
    let tokens = vec!["redis".to_string(), "  ".to_string(), "ca\"che".to_string()];
    assert_eq!(
        build_fts_match_query(&tokens),
        Some("\"redis\"* OR \"cache\"*".to_string())
    );
    assert_eq!(build_fts_match_query(&[]), None);
    assert_eq!(build_fts_match_query(&["  ".to_string()]), None);
}

#[test]
fn wiki_search_plans() {
    assert!(matches!(plan_wiki_search("x", 0), WikiSearchPlan::Nothing));
    assert!(matches!(plan_wiki_search("  ", 5), WikiSearchPlan::Recent));
    match plan_wiki_search(" redis  cache ", 5) {
        WikiSearchPlan::Keyword { keyword, fts_query } => {
            assert_eq!(keyword, "redis  cache");
            assert_eq!(fts_query, Some("\"redis\"* OR \"cache\"*".to_string()));
        }
        _ => panic!("expected a keyword search"),
    }
}

#[test]
fn record_fields() {
    let r = AskHistoryRecord {
        id: 1,
        question: "q".to_string(),
        created_at: "1".to_string(),
    };
    assert_eq!(r.clone().question, "q");
}

#[test]
fn ask_turn_fields_are_checked_and_normalised() {
    let t = ask_turn_input(" s1 ", " user ", "  hi  ", None, Some("  ")).unwrap();
    assert_eq!((t.session_id.as_str(), t.role.as_str(), t.content.as_str()), ("s1", "user", "hi"));
    assert_eq!(t.citations_json, "[]");
    assert!(t.meta_json.is_none());
    let t = ask_turn_input("s", "assistant", "x", Some(" [1] "), Some(" {} ")).unwrap();
    assert_eq!(t.citations_json, "[1]");
    assert_eq!(t.meta_json.as_deref(), Some("{}"));
    assert_eq!(ask_turn_input("  ", "user", "x", None, None).unwrap_err(), "session_id 不能为空");
    assert_eq!(ask_turn_input("s", "system", "x", None, None).unwrap_err(), "role 必须是 user 或 assistant");
    assert_eq!(ask_turn_input("s", "user", " ", None, None).unwrap_err(), "content 不能为空");
}

#[test]
fn store_fields_must_not_be_blank() {
    assert_eq!(require_text("  t ", "topic 不能为空"), Ok("t".to_string()));
    assert_eq!(require_text(" ", "topic 不能为空"), Err("topic 不能为空".to_string()));
    assert_eq!(agent_memory_input(" k ", " v "), Ok(("k".to_string(), "v".to_string())));
    assert_eq!(agent_memory_input("", "v").unwrap_err(), "memory_key 不能为空");
    assert_eq!(agent_memory_input("k", "").unwrap_err(), "memory_value 不能为空");
    assert_eq!(agent_skill_input("k", " ").unwrap_err(), "prompt_template 不能为空");
    assert_eq!(run_event_input(" ", "m").unwrap_err(), "level 不能为空");
    assert_eq!(
        agent_draft_input(" T ", " body ", " pending "),
        Ok(("T".to_string(), "body".to_string(), "pending".to_string()))
    );
    assert_eq!(agent_draft_input("T", " ", "x").unwrap_err(), "draft content 不能为空");
}

#[test]
fn finished_runs_get_a_completion_time() {
    assert_eq!(run_completion(" done ", "t1"), Ok(("done".to_string(), Some("t1".to_string()))));
    assert_eq!(run_completion("reviewing", "t1"), Ok(("reviewing".to_string(), None)));
    assert_eq!(run_completion("running", "t1"), Ok(("running".to_string(), None)));
    assert_eq!(run_completion("  ", "t1").unwrap_err(), "status 不能为空");
}
