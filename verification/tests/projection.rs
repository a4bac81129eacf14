use llm_wiki::projection::{
    page_order, plan_projection, render_log, stable_order, AuditEntry, ProjectionClaim,
    ProjectionPage, ProjectionSource,
};
use llm_wiki::wiki_core::{AuditOperation, MemoryTier};

fn page(id: &str, key: u128, title: &str, md: &str) -> ProjectionPage {
    ProjectionPage {
        id: id.to_string(),
        id_key: key,
        title: title.to_string(),
        markdown: md.to_string(),
        updated_date: "2024-01-02".to_string(),
    }
}

#[test]
fn orders() {
    assert_eq!(stable_order(&[3, 1, 3, 0]), vec![3, 1, 0, 2]);
    assert!(stable_order(&[]).is_empty());
    let titles = vec!["b".to_string(), "a".to_string(), "b".to_string(), "B".to_string()];
    assert_eq!(page_order(&titles, &[5, 9, 1, 7]), vec![3, 1, 2, 0]);
}

#[test]
fn projection_writes_index_and_files() {
    let pages = vec![
        page("22222222-0000", 2, "Beta Page", "b"),
        page("11111111-0000", 1, "Alpha Page", "Link to [[Beta Page]]"),
        page("abcdefgh-ijkl", 3, "中文", "c"),
    ];
    let claims = vec![ProjectionClaim {
        id: "c1c1c1c1-0000".to_string(),
        text: "Redis caching for API".to_string(),
        tier: MemoryTier::Semantic,
        confidence: "0.500".to_string(),
        quality: "0.500".to_string(),
        stale: false,
        source_count: 0,
        created_at: 10,
    }];
    let sources = vec![ProjectionSource {
        id: "s1s1s1s1-0000".to_string(),
        uri: "file:///a.md".to_string(),
        body: "hello world".to_string(),
        ingested_at: "2024-01-02T00:00:00Z".to_string(),
        ingested_at_key: 5,
    }];
    let p = plan_projection(&pages, &claims, &sources);
    assert!(p.stats.pages_written >= 1);
    assert_eq!(p.stats.pages_written, 3);
    assert_eq!(p.files.len(), 5);
    assert_eq!((p.files[0].dir.as_str(), p.files[0].name.as_str()), ("pages", "alpha-page.md"));
    assert_eq!(p.files[1].name, "beta-page.md");
    assert_eq!(p.files[2].name, "abcdefgh.md");
    assert_eq!(p.files[3].dir, "concepts");
    assert_eq!(p.files[3].name, "c1c1c1c1.md");
    assert_eq!(
        p.files[3].content,
        "# Claim c1c1c1c1\n\n- id: `c1c1c1c1-0000`\n- tier: `Semantic`\n- confidence: `0.500`\n- quality: `0.500`\n- stale: `false`\n- sources: `0`\n\n## Text\n\nRedis caching for API\n"
    );
    assert_eq!(
        p.files[4].content,
        "# Source s1s1s1s1\n\n- id: `s1s1s1s1-0000`\n- uri: `file:///a.md`\n- ingested_at: `2024-01-02T00:00:00Z`\n\n## Preview\n\nhello world\n"
    );
    assert_eq!(
        p.index,
        "# index\n\n## pages\n\n- [Alpha Page](pages/alpha-page.md) | updated: 2024-01-02\n- [Beta Page](pages/beta-page.md) | updated: 2024-01-02\n- [中文](pages/abcdefgh.md) | updated: 2024-01-02\n\n## concepts\n\n- [claim:c1c1c1c1](concepts/c1c1c1c1.md) | tier=Semantic stale=false\n\n## sources\n\n- [source:s1s1s1s1](sources/s1s1s1s1.md) | file:///a.md\n"
    );
}

#[test]
fn log_is_ordered_by_time() {
    let a = AuditEntry {
        id: "a".to_string(),
        op: AuditOperation::RunLint,
        actor: "t".to_string(),
        summary: "lint findings=0".to_string(),
        at: "T2".to_string(),
        at_key: 2,
    };
    let b = AuditEntry {
        id: "b".to_string(),
        op: AuditOperation::IngestSource,
        actor: "t".to_string(),
        summary: "x".to_string(),
        at: "T1".to_string(),
        at_key: 1,
    };
    assert_eq!(
        render_log(&[a, b]),
        "# log\n\n## [T1] IngestSource | b\n- actor: `t`\n- summary: x\n\n## [T2] RunLint | a\n- actor: `t`\n- summary: lint findings=0\n\n"
    );
    assert_eq!(render_log(&[]), "# log\n\n");
}
