use llm_wiki::engine::{DomainSchema, EntityRecord, LlmWikiEngine};
use llm_wiki::kernel::SearchPorts;
use llm_wiki::search::{
    doc_order, format_claim_doc_id, format_entity_doc_id, format_page_doc_id, parse_claim_doc_id, ranked_ids,
    InMemorySearchPorts,
};
use llm_wiki::wiki_core::{EntityKind, MemoryTier, Scope, SessionCrystallizationInput};

fn scope() -> Scope {
    Scope::Private { agent_id: "a".into() }
}

#[test]
fn doc_ids_carry_their_kind() {
    assert_eq!(format_claim_doc_id(1), "claim:00000000-0000-0000-0000-000000000001");
    assert_eq!(format_page_doc_id(0x10), "page:00000000-0000-0000-0000-000000000010");
    assert_eq!(format_entity_doc_id(u128::MAX), "entity:ffffffff-ffff-ffff-ffff-ffffffffffff");
}

#[test]
fn ranking_is_by_score_then_id() {
    let docs = vec![("b".to_string(), 1usize), ("a".to_string(), 1), ("c".to_string(), 2), ("d".to_string(), 0)];
    assert_eq!(ranked_ids(&docs, 10, true), vec!["c", "a", "b", "d"]);
    assert_eq!(ranked_ids(&docs, 10, false), vec!["c", "b", "a", "d"]);
    assert_eq!(ranked_ids(&docs, 2, true), vec!["c", "a"]);
    assert_eq!(ranked_ids(&docs, 0, true), Vec::<String>::new());
    assert_eq!(doc_order(&docs, true), vec![2, 1, 0, 3]);
}

#[test]
fn memory_ports_rank_live_claims_and_pages() {
    let mut eng = LlmWikiEngine::new(DomainSchema::permissive_default());
    eng.file_claim(1, "Redis cache layer".into(), scope(), MemoryTier::Working, "u");
    eng.file_claim(2, "Redis".into(), scope(), MemoryTier::Working, "u");
    eng.file_claim(3, "Postgres".into(), scope(), MemoryTier::Working, "u");
    eng.supersede(3, 4, "Redis cache".into(), scope(), MemoryTier::Working, "u").unwrap();
    eng.crystallize(
        9,
        SessionCrystallizationInput {
            question: "why redis".into(),
            findings: vec![],
            files_touched: vec![],
            lessons: vec![],
            scope: scope(),
        },
        "u",
    )
    .unwrap();
    let ports = InMemorySearchPorts { store: &eng };
    let c1 = format_claim_doc_id(1);
    let c2 = format_claim_doc_id(2);
    let c4 = format_claim_doc_id(4);
    let p9 = format_page_doc_id(9);
    assert_eq!(ports.bm25_ranked_ids("Redis cache", 10), vec![c1.clone(), c4.clone(), c2.clone(), p9.clone()]);
    assert_eq!(ports.vector_ranked_ids("Redis cache", 10), vec![c4.clone(), c1.clone(), p9.clone(), c2.clone()]);
    assert_eq!(ports.bm25_ranked_ids("Redis cache", 1), vec![c1]);
    assert!(ports.bm25_ranked_ids("x", 10).is_empty());
    let scored = ports.collect_doc_scores(&["redis".to_string()]);
    assert_eq!(scored.len(), 4);
}

#[test]
fn graph_port_ranks_entities_by_label() {
    let mut eng = LlmWikiEngine::new(DomainSchema::permissive_default());
    eng.add_entity(EntityRecord { id: 2, kind: EntityKind::Library, label: "Tokio runtime".into(), scope: scope() })
        .unwrap();
    eng.add_entity(EntityRecord { id: 1, kind: EntityKind::Library, label: "Tokio".into(), scope: scope() }).unwrap();
    eng.add_entity(EntityRecord { id: 3, kind: EntityKind::Concept, label: "Serde".into(), scope: scope() }).unwrap();
    let ports = InMemorySearchPorts { store: &eng };
    assert_eq!(
        ports.graph_ranked_ids("tokio runtime", 5),
        vec![format_entity_doc_id(2), format_entity_doc_id(1)]
    );
}

#[test]
fn claim_doc_ids_read_back() {
    let id: u128 = 0x67e5504410b1426f9247bb680e5fe0c8;
    assert_eq!(parse_claim_doc_id(&format_claim_doc_id(id)), Some(id));
    assert_eq!(parse_claim_doc_id("claim:67E55044-10B1-426F-9247-BB680E5FE0C8"), Some(id));
    assert_eq!(parse_claim_doc_id("claim:67e5504410b1426f9247bb680e5fe0c8"), Some(id));
    assert_eq!(parse_claim_doc_id(&format_page_doc_id(id)), None);
    assert_eq!(parse_claim_doc_id("claim:not-a-uuid"), None);
}
