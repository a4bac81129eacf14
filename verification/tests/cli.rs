use llm_wiki::cli::{
    attempts_of, chat_completions_url, default_timeout_seconds, llm_http_error, llm_reply_content,
    parse_scope, parse_tier, query_page_markdown, timestamp_slug, LlmConfig, LlmConfigFile,
};
use llm_wiki::wiki_core::{MemoryTier, Scope};

#[test]
fn completions_url_variants() {
    assert_eq!(chat_completions_url("https://api.x.com/v1/"), "https://api.x.com/v1/chat/completions");
    assert_eq!(chat_completions_url("https://api.x.com"), "https://api.x.com/v1/chat/completions");
    assert_eq!(chat_completions_url("https://api.x.com///"), "https://api.x.com/v1/chat/completions");
}

#[test]
fn config_defaults_and_attempts() {
    assert_eq!(default_timeout_seconds(), 60);
    let cfg = LlmConfig {
        base_url: "u".to_string(),
        api_key: "k".to_string(),
        model: "m".to_string(),
        timeout_seconds: default_timeout_seconds(),
        max_retries: 2,
    };
    assert_eq!(attempts_of(&cfg), 3);
    let file = LlmConfigFile { llm: cfg };
    assert_eq!(file.llm.model, "m");
}

#[test]
fn scopes() {
    assert_eq!(parse_scope("shared:team1"), Scope::Shared { team_id: "team1".to_string() });
    assert_eq!(parse_scope("private:a1"), Scope::Private { agent_id: "a1".to_string() });
    assert_eq!(parse_scope("bob"), Scope::Private { agent_id: "bob".to_string() });
}

#[test]
fn tiers() {
    assert_eq!(parse_tier(" Semantic "), Ok(MemoryTier::Semantic));
    assert_eq!(parse_tier("WORKING"), Ok(MemoryTier::Working));
    assert_eq!(parse_tier("episodic"), Ok(MemoryTier::Episodic));
    assert_eq!(parse_tier("procedural"), Ok(MemoryTier::Procedural));
    assert_eq!(parse_tier("x"), Err("unknown tier: x".to_string()));
}

#[test]
fn chat_replies() {
    assert_eq!(
        llm_reply_content(r#"{"choices":[{"message":{"content":"  pong \n"}}]}"#),
        Ok("pong".to_string())
    );
    let empty = r#"{"choices":[]}"#;
    assert_eq!(
        llm_reply_content(empty),
        Err(format!("llm response missing content: {empty}"))
    );
    assert!(llm_reply_content("nope").is_err());
    assert_eq!(llm_http_error(503, "busy"), "llm http 503: busy");
}

#[test]
fn timestamp_slug_replaces_colons() {
    assert_eq!(timestamp_slug(Some("2024-05-01T10:20:30Z".to_string())), "2024-05-01T10-20-30Z");
    assert_eq!(timestamp_slug(None), "now");
}

#[test]
fn query_page_lists_at_most_twenty_results() {
    let rows: Vec<(String, String)> =
        (0..25).map(|i| (format!("claim:{i}"), format!("{:.6}", 1.0 / (i as f64 + 1.0)))).collect();
    let md = query_page_markdown("T", "q", &rows);
    assert!(md.starts_with("# T\n\n## Query\n\nq\n\n## Top Results\n\n- `claim:0` score=1.000000\n"));
    assert_eq!(md.matches("score=").count(), 20);
    assert_eq!(
        query_page_markdown("T", "q", &[]),
        "# T\n\n## Query\n\nq\n\n## Top Results\n\n"
    );
}
