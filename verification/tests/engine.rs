use llm_wiki::engine::{
    reinforce_claim, supersede_claim, ClaimRecord, DomainSchema, EdgeRecord, EngineError, EntityRecord, FlushStep, LlmWikiEngine, OutboxFlush, PageRecord,
    OUTBOX_RETRY_COUNT,
};
use llm_wiki::graph::GraphWalkOptions;
use llm_wiki::kernel::NoopWikiHook;
use llm_wiki::text::uuid_string;
use llm_wiki::wiki_core::{
    AuditOperation, EntityKind, MemoryTier, RelationKind, Scope, SessionCrystallizationInput, WikiEvent,
};

fn claim(eng: &LlmWikiEngine<NoopWikiHook>, id: u128) -> &ClaimRecord {
    eng.claims.iter().find(|c| c.id == id).unwrap()
}

fn private() -> Scope {
    Scope::Private { agent_id: "a1".into() }
}

#[test]
fn ingest_and_file_claim_flow() {
    let mut eng = LlmWikiEngine::new(DomainSchema::permissive_default());
    let sid = eng.ingest_raw(11, "file:///tmp/note.md".to_string(), "项目使用 Redis\nAuthorization: Bearer secret", private(), "tester");
    let cid = eng.file_claim(22, "项目使用 Redis".to_string(), private(), MemoryTier::Working, "tester");
    eng.attach_sources(cid, &[sid]).unwrap();
    let src = eng.sources.iter().find(|s| s.id == sid).unwrap();
    assert!(src.body.contains("REDACTED"));
    assert!(!claim(&eng, cid).source_ids.is_empty());
}

#[test]
fn supersede_chain() {
    let mut eng = LlmWikiEngine::new(DomainSchema::permissive_default());
    let shared = || Scope::Shared { team_id: "t1".into() };
    let old = eng.file_claim(1, "v1".to_string(), shared(), MemoryTier::Semantic, "u");
    let new = eng.supersede(old, 2, "v2".to_string(), shared(), MemoryTier::Semantic, "u").unwrap();
    assert!(claim(&eng, old).stale);
    assert_eq!(claim(&eng, new).supersedes, Some(old));
}

#[test]
fn supersession_marks_stale() {
    let mut eng = LlmWikiEngine::new(DomainSchema::permissive_default());
    let a = eng.file_claim(5, "旧结论".to_string(), private(), MemoryTier::Semantic, "a");
    let b = eng.supersede(a, 6, "新结论".to_string(), private(), MemoryTier::Semantic, "a").unwrap();
    assert!(claim(&eng, a).stale);
    assert_eq!(claim(&eng, b).supersedes, Some(a));
    assert!(!claim(&eng, b).stale);
    assert_eq!(
        eng.outbox,
        vec![WikiEvent::ClaimUpserted { claim_id: 5 }, WikiEvent::ClaimSuperseded { old: 5, new: 6 }]
    );
    assert_eq!(eng.audits[1].op, AuditOperation::SupersedeClaim);
    assert_eq!(
        eng.audits[1].summary,
        "00000000-0000-0000-0000-000000000006 supersedes 00000000-0000-0000-0000-000000000005"
    );
}

#[test]
fn supersede_unknown_claim_is_refused() {
    let mut eng = LlmWikiEngine::new(DomainSchema::permissive_default());
    let err = eng.supersede(9, 10, "x".to_string(), private(), MemoryTier::Working, "u").unwrap_err();
    assert_eq!(err, EngineError::ClaimNotFound(9));
    assert_eq!(err.to_string(), "claim not found: ClaimId(00000000-0000-0000-0000-000000000009)");
    assert!(eng.claims.is_empty());
    assert!(eng.outbox.is_empty());
    assert_eq!(eng.attach_sources(9, &[1]), Err(EngineError::ClaimNotFound(9)));
}

#[test]
fn ingest_audits_redactions_and_announces() {
    let mut eng = LlmWikiEngine::new(DomainSchema::permissive_default());
    eng.ingest_raw(0xab, "u".to_string(), "plain\napi_key = 1", private(), "me");
    assert_eq!(eng.audits.len(), 2);
    assert_eq!(eng.audits[0].summary, "ingested 00000000-0000-0000-0000-0000000000ab redactions=1");
    assert_eq!(eng.audits[1].op, AuditOperation::RedactSensitive);
    assert_eq!(eng.audits[1].summary, "redaction findings=1");
    assert_eq!(eng.outbox, vec![WikiEvent::SourceIngested { source_id: 0xab, redacted: true }]);
    assert_eq!(eng.sources[0].body, "plain\n[REDACTED_SECRET]");
    eng.ingest_raw(0xac, "u".to_string(), "clean", private(), "me");
    assert_eq!(eng.audits.len(), 3);
    assert_eq!(eng.outbox[1], WikiEvent::SourceIngested { source_id: 0xac, redacted: false });
}

#[test]
fn attaching_sources_keeps_each_once_and_reinforces() {
    let mut eng = LlmWikiEngine::new(DomainSchema::permissive_default());
    let c = eng.file_claim(1, "x".to_string(), private(), MemoryTier::Working, "u");
    eng.attach_sources(c, &[3, 4, 3]).unwrap();
    eng.attach_sources(c, &[4, 5]).unwrap();
    assert_eq!(claim(&eng, c).source_ids, vec![3, 4, 5]);
    assert_eq!(claim(&eng, c).access_count, 2);
}

#[test]
fn filing_under_an_existing_id_replaces_the_claim() {
    let mut eng = LlmWikiEngine::new(DomainSchema::permissive_default());
    eng.file_claim(1, "a".to_string(), private(), MemoryTier::Working, "u");
    eng.file_claim(1, "b".to_string(), private(), MemoryTier::Episodic, "u");
    assert_eq!(eng.claims.len(), 1);
    assert_eq!(eng.claims[0].text, "b");
    assert_eq!(eng.audits[0].summary, "claim 00000000-0000-0000-0000-000000000001");
}

#[test]
fn promotion_needs_qualification() {
    let mut eng = LlmWikiEngine::new(DomainSchema::permissive_default());
    let c = eng.file_claim(1, "x".to_string(), private(), MemoryTier::Working, "u");
    assert_eq!(eng.promote_if_qualified(c, false, "u"), Err(EngineError::PromotionDenied));
    assert_eq!(eng.promote_if_qualified(7, true, "u"), Err(EngineError::ClaimNotFound(7)));
    assert_eq!(EngineError::PromotionDenied.to_string(), "promotion threshold not met");
    eng.promote_if_qualified(c, true, "u").unwrap();
    assert_eq!(claim(&eng, c).tier, MemoryTier::Episodic);
    assert_eq!(eng.audits.last().unwrap().summary, "promoted claim 00000000-0000-0000-0000-000000000001");
}

#[test]
fn schema_admits_named_kinds_and_relations() {
    let s = DomainSchema::permissive_default();
    assert_eq!(s.title, "default-permissive");
    assert!(s.entity_kind_allowed(&EntityKind::Library));
    assert!(!s.entity_kind_allowed(&EntityKind::Other("x".into())));
    assert!(s.relation_allowed(RelationKind::Supersedes));
    let mut narrow = DomainSchema::permissive_default();
    narrow.allowed_relations = vec![RelationKind::Uses];
    narrow.allowed_entity_kinds = vec![EntityKind::Other("svc".into())];
    assert!(!narrow.relation_allowed(RelationKind::Related));
    assert!(narrow.entity_kind_allowed(&EntityKind::Other("svc".into())));
    let mut eng = LlmWikiEngine::new(narrow);
    let e = EntityRecord { id: 1, kind: EntityKind::Person, label: "p".into(), scope: private() };
    assert_eq!(eng.add_entity(e), Err(EngineError::EntityKindNotAllowed));
    assert_eq!(EngineError::EntityKindNotAllowed.to_string(), "schema rejected entity kind");
    let edge = EdgeRecord { from: 1, to: 2, relation: RelationKind::Related, source_ids: vec![] };
    let err = eng.add_edge(edge).unwrap_err();
    assert_eq!(err.to_string(), "schema rejected relation: Related");
    assert!(eng.edges.is_empty());
}

#[test]
fn graph_expansion_follows_edges() {
    let mut eng = LlmWikiEngine::new(DomainSchema::permissive_default());
    for (f, t) in [(1u128, 2u128), (2, 3), (3, 4)] {
        eng.add_edge(EdgeRecord { from: f, to: t, relation: RelationKind::Uses, source_ids: vec![] }).unwrap();
    }
    let mut got = eng.expand_graph(&[1], &GraphWalkOptions { max_depth: 2, allowed_relations: None });
    got.sort();
    assert_eq!(got, vec![1, 2, 3]);
    assert_eq!(eng.graph_snapshot().edges.len(), 3);
}

#[test]
fn contradiction_pairs_skip_stale_claims() {
    let mut eng = LlmWikiEngine::new(DomainSchema::permissive_default());
    eng.file_claim(1, "Redis 不是 缓存".to_string(), private(), MemoryTier::Working, "u");
    eng.file_claim(2, "Redis 是 缓存".to_string(), private(), MemoryTier::Working, "u");
    eng.file_claim(3, "it cannot fly".to_string(), private(), MemoryTier::Working, "u");
    eng.file_claim(4, "it can fly".to_string(), private(), MemoryTier::Working, "u");
    let hints = eng.naive_contradiction_pairs();
    let pairs: Vec<(u128, u128)> = hints.iter().map(|h| (h.a, h.b)).collect();
    assert_eq!(pairs, vec![(1, 2), (3, 4)]);
    assert_eq!(hints[0].reason, "heuristic negation / mismatch");
    eng.supersede(2, 5, "other".to_string(), private(), MemoryTier::Working, "u").unwrap();
    let pairs: Vec<(u128, u128)> = eng.naive_contradiction_pairs().iter().map(|h| (h.a, h.b)).collect();
    assert_eq!(pairs, vec![(3, 4)]);
}

#[test]
fn crystallize_stores_the_page_and_announces_it() {
    let mut eng = LlmWikiEngine::new(DomainSchema::permissive_default());
    let d = eng
        .crystallize(
            7,
            SessionCrystallizationInput {
                question: "q".into(),
                findings: vec!["f".into()],
                files_touched: vec![],
                lessons: vec!["l".into()],
                scope: private(),
            },
            "u",
        )
        .unwrap();
    assert_eq!(d.title, "结晶: q");
    assert_eq!(eng.pages[0].title, "结晶: q");
    assert_eq!(eng.pages[0].markdown, d.markdown);
    assert_eq!(eng.outbox, vec![WikiEvent::SessionCrystallized { page_id: 7 }]);
    assert_eq!(eng.audits[0].summary, "crystallized page 00000000-0000-0000-0000-000000000007");
}

#[test]
fn record_query_and_lint_are_announced() {
    let mut eng = LlmWikiEngine::new(DomainSchema::permissive_default());
    eng.record_query("fp1".to_string(), vec!["claim:x".to_string()], "u");
    assert_eq!(eng.audits[0].summary, "query fp=fp1");
    assert_eq!(
        eng.outbox[0],
        WikiEvent::QueryServed { query_fingerprint: "fp1".into(), top_doc_ids: vec!["claim:x".into()] }
    );
    eng.file_claim(1, "orphaned statement".to_string(), private(), MemoryTier::Working, "u");
    let findings = eng.run_basic_lint(&[1], "u");
    let codes: Vec<&str> = findings.iter().map(|f| f.code.as_str()).collect();
    assert_eq!(codes, vec!["quality.low", "xref.missing"]);
    assert_eq!(findings[0].subject.as_deref(), Some("00000000-0000-0000-0000-000000000001"));
    assert_eq!(eng.outbox.last(), Some(&WikiEvent::LintRunFinished { findings: 2 }));
    assert_eq!(eng.audits.last().unwrap().summary, "lint findings=2");
}

#[test]
fn outbox_flush_retries_then_counts_every_event() {
    let mut f = OutboxFlush::new(2, OUTBOX_RETRY_COUNT);
    assert_eq!(f.step(), FlushStep::Append(0));
    assert_eq!(f.on_append(false), FlushStep::Append(0));
    assert_eq!(f.on_append(true), FlushStep::Append(1));
    assert_eq!(f.on_append(true), FlushStep::Done(2));
    let mut g = OutboxFlush::new(1, 1);
    assert_eq!(g.on_append(false), FlushStep::Append(0));
    assert_eq!(g.on_append(false), FlushStep::Failed);
    assert_eq!(OutboxFlush::new(0, 3).step(), FlushStep::Done(0));
    let mut eng = LlmWikiEngine::new(DomainSchema::permissive_default());
    eng.file_claim(1, "x".into(), private(), MemoryTier::Working, "u");
    eng.clear_outbox();
    assert!(eng.outbox.is_empty());
    assert_eq!(eng.claims.len(), 1);
}

#[test]
fn uuid_text_is_hyphenated_lowercase_hex() {
    assert_eq!(uuid_string(0), "00000000-0000-0000-0000-000000000000");
    assert_eq!(uuid_string(0x67e5504410b1426f9247bb680e5fe0c8), "67e55044-10b1-426f-9247-bb680e5fe0c8");
    assert_eq!(uuid_string(u128::MAX), "ffffffff-ffff-ffff-ffff-ffffffffffff");
}

fn bare_claim(id: u128, text: &str) -> ClaimRecord {
    ClaimRecord {
        id,
        text: text.to_string(),
        tier: MemoryTier::Semantic,
        scope: Scope::Private { agent_id: "a".to_string() },
        source_ids: Vec::new(),
        supersedes: None,
        stale: false,
        access_count: 0,
    }
}

#[test]
fn supersede_claim_links_the_pair() {
    let mut a = bare_claim(1, "旧结论");
    let mut b = bare_claim(2, "新结论");
    supersede_claim(&mut a, &mut b);
    assert!(a.stale);
    assert_eq!(b.supersedes, Some(1));
    assert!(!b.stale);
    assert_eq!(a.supersedes, None);
}

#[test]
fn reinforce_claim_counts_and_saturates() {
    let mut c = bare_claim(3, "x");
    reinforce_claim(&mut c);
    reinforce_claim(&mut c);
    assert_eq!(c.access_count, 2);
    c.access_count = u32::MAX;
    reinforce_claim(&mut c);
    assert_eq!(c.access_count, u32::MAX);
}

#[test]
fn lint_refreshes_page_links_and_reports_broken_ones() {
    let mut eng = LlmWikiEngine::new(DomainSchema::permissive_default());
    eng.pages.push(PageRecord {
        id: 9,
        title: "Alpha".to_string(),
        markdown: "Link to [[MissingPage]]".to_string(),
        scope: private(),
        outbound_page_titles: Vec::new(),
    });
    let f = eng.run_basic_lint(&[], "tester");
    let got: Vec<(&str, &str)> = f.iter().map(|x| (x.code.as_str(), x.message.as_str())).collect();
    assert_eq!(
        got,
        vec![("page.broken_wikilink", "broken wikilink: MissingPage"), ("page.orphan", "page has no inbound wikilinks")]
    );
    assert_eq!(f[0].subject, Some(uuid_string(9)));
    assert_eq!(eng.pages[0].outbound_page_titles, vec!["MissingPage".to_string()]);
    assert_eq!(eng.pages[0].markdown, "Link to [[MissingPage]]");
}

#[test]
fn crystallized_page_keeps_scope_and_has_no_links_yet() {
    let mut eng = LlmWikiEngine::new(DomainSchema::permissive_default());
    let d = eng
        .crystallize(
            3,
            SessionCrystallizationInput {
                question: "q".to_string(),
                findings: vec![],
                files_touched: vec![],
                lessons: vec![],
                scope: Scope::Shared { team_id: "t".to_string() },
            },
            "a",
        )
        .unwrap();
    assert_eq!(d.scope, Scope::Shared { team_id: "t".to_string() });
    assert_eq!(eng.pages[0].scope, Scope::Shared { team_id: "t".to_string() });
    assert!(eng.pages[0].outbound_page_titles.is_empty());
}

#[test]
fn failed_flush_stops_at_the_event_it_could_not_append() {
    let mut f = OutboxFlush::new(3, 1);
    assert_eq!(f.on_append(true), FlushStep::Append(1));
    assert_eq!(f.on_append(false), FlushStep::Append(1));
    assert_eq!(f.on_append(false), FlushStep::Failed);
    assert_eq!(f.next, 1);
    assert!(f.failed);
}
