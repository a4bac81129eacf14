use llm_wiki::wiki_core::{
    advance_tier, draft_from_session, extract_wikilinks, redact_for_ingest, MemoryTier, Scope,
    SensitiveKind, SessionCrystallizationInput,
};

#[test]
fn extracts_unique_wikilinks() {
    let md = "A [[One]] B [[Two]] [[One]]";
    let got = extract_wikilinks(md);
    assert_eq!(got, vec!["One".to_string(), "Two".to_string()]);
}

#[test]
fn wikilinks_trimmed_empty_skipped_and_unclosed_stops() {
    assert_eq!(extract_wikilinks("[[  Alpha  ]] [[ ]] [[Beta"), vec!["Alpha".to_string()]);
    assert_eq!(extract_wikilinks("[[中文 页面]]"), vec!["中文 页面".to_string()]);
    assert!(extract_wikilinks("[[]]").is_empty());
    assert!(extract_wikilinks("").is_empty());
}

#[test]
fn redacts_bearer() {
    let (s, f) = redact_for_ingest("Authorization: Bearer abc.def");
    assert!(s.contains("REDACTED"));
    assert!(!f.is_empty());
}

#[test]
fn redaction_is_line_by_line() {
    let (s, f) = redact_for_ingest("keep me\n  bearer xyz\napi_key = 1\nPRIVATE DO_NOT_COMMIT\nAKIA123\r\nend\n");
    assert_eq!(
        s,
        "keep me\n[REDACTED_BEARER]\n[REDACTED_SECRET]\n[REDACTED_PRIVATE]\n[REDACTED_SECRET]\nend"
    );
    let kinds: Vec<SensitiveKind> = f.iter().map(|x| x.kind).collect();
    assert_eq!(
        kinds,
        vec![
            SensitiveKind::BearerToken,
            SensitiveKind::ApiKeyLike,
            SensitiveKind::PrivateMarker,
            SensitiveKind::ApiKeyLike
        ]
    );
    assert_eq!(f[2].placeholder, "[REDACTED_PRIVATE]");
}

#[test]
fn redaction_skips_separator_while_output_empty() {
    let (s, f) = redact_for_ingest("\nfoo");
    assert_eq!(s, "foo");
    assert!(f.is_empty());
}

#[test]
fn advance_tier_climbs_the_ladder_and_stops_at_the_top() {
    assert_eq!(advance_tier(MemoryTier::Working), MemoryTier::Episodic);
    assert_eq!(advance_tier(MemoryTier::Episodic), MemoryTier::Semantic);
    assert_eq!(advance_tier(MemoryTier::Semantic), MemoryTier::Procedural);
    assert_eq!(advance_tier(MemoryTier::Procedural), MemoryTier::Procedural);
}

#[test]
fn crystallized_draft_has_all_sections() {
    let d = draft_from_session(SessionCrystallizationInput {
        question: "why  is\nit slow".to_string(),
        findings: vec!["cache  miss".to_string()],
        files_touched: vec!["src/a.rs".to_string()],
        lessons: vec!["measure first".to_string()],
        scope: Scope::Private { agent_id: "a".to_string() },
    });
    assert_eq!(d.title, "结晶: why is it slow");
    assert_eq!(
        d.markdown,
        "# 问题\n\nwhy  is\nit slow\n\n## 结论与发现\n\n- cache miss\n\n## 涉及文件\n\n- `src/a.rs`\n\n## 可复用教训\n\n- measure first\n"
    );
    assert_eq!(d.claim_candidates, vec!["measure first".to_string()]);
}

#[test]
fn crystallized_draft_omits_empty_sections() {
    let d = draft_from_session(SessionCrystallizationInput {
        question: "q".to_string(),
        findings: vec![],
        files_touched: vec![],
        lessons: vec![],
        scope: Scope::Shared { team_id: "t".to_string() },
    });
    assert_eq!(d.markdown, "# 问题\n\nq\n\n## 结论与发现\n\n");
    assert!(d.claim_candidates.is_empty());
    assert_eq!(d.scope, Scope::Shared { team_id: "t".to_string() });
    assert!(d.outbound_page_titles.is_empty());
}

#[test]
fn redaction_output_holds_no_secret_line() {
    let (once, found) = redact_for_ingest("Authorization: x\r\n\nok\r\napi_key=1\r\n");
    assert_eq!(once, "[REDACTED_BEARER]\n\nok\n[REDACTED_SECRET]");
    assert_eq!(found.len(), 2);
    let (twice, again) = redact_for_ingest(&once);
    assert!(again.is_empty());
    assert_eq!(twice, once);
}

#[test]
fn new_work_items_are_to_do() {
    let w = llm_wiki::wiki_core::WorkItem::new(7, "index".to_string(), "alice".to_string(), 1_700_000_000);
    assert_eq!(w.state, llm_wiki::wiki_core::WorkState::Todo);
    assert_eq!((w.id, w.topic.as_str(), w.owner.as_str(), w.updated_at), (7, "index", "alice", 1_700_000_000));
}
