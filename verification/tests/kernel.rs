use llm_wiki::kernel::{
    claim_has_page_reference, contradicts_heuristic, lint_report_file_name, preview_text,
    query_tokens, render_index, render_lint_report, score_text_lc, slugify, ProjectionStats,
};
use llm_wiki::wiki_core::{LintFinding, LintSeverity};

#[test]
fn query_tokens_split_lowercase_and_drop_single_bytes() {
    assert_eq!(
        query_tokens("Redis caching, for a API!"),
        vec!["redis".to_string(), "caching".to_string(), "for".to_string(), "api".to_string()]
    );
    assert!(query_tokens("").is_empty());
    assert!(query_tokens("a b c").is_empty());
    // a CJK character is three bytes long, so it counts as a token
    assert_eq!(query_tokens("缓存"), vec!["缓存".to_string()]);
    assert_eq!(query_tokens("snake_case"), vec!["snake".to_string(), "case".to_string()]);
}

#[test]
fn score_counts_contained_tokens() {
    let tokens = vec!["redis".to_string(), "api".to_string(), "kafka".to_string()];
    assert_eq!(score_text_lc("redis caching for the api", &tokens), 2);
    assert_eq!(score_text_lc("nothing here", &tokens), 0);
    assert_eq!(score_text_lc("anything", &[]), 0);
}

#[test]
fn contradiction_heuristic_pairs() {
    assert!(contradicts_heuristic("Redis 不是 数据库", "Redis 是 数据库"));
    assert!(contradicts_heuristic("X can scale", "X CANNOT scale"));
    assert!(!contradicts_heuristic("Redis is fast", "Redis is small"));
    assert!(!contradicts_heuristic("cannot", "cannot"));
}

#[test]
fn page_reference_needs_a_long_keyword() {
    assert!(claim_has_page_reference("Redis caching", "we use redis here"));
    assert!(!claim_has_page_reference("Redis caching", "nothing relevant"));
    // no keyword of four bytes or more: counts as referenced
    assert!(claim_has_page_reference("a b c", "anything"));
    assert!(claim_has_page_reference("", ""));
}

#[test]
fn index_lists_rows_or_empty_markers() {
    let pages = vec!["- [Alpha](pages/alpha.md)".to_string()];
    let got = render_index(&pages, &[], &[]);
    assert_eq!(
        got,
        "# index\n\n## pages\n\n- [Alpha](pages/alpha.md)\n\n## concepts\n\n- (empty)\n\n## sources\n\n- (empty)\n"
    );
}

#[test]
fn slugify_keeps_ascii_alnum_and_dashes() {
    assert_eq!(slugify("Alpha Page", "0123456789"), "alpha-page");
    assert_eq!(slugify("  --Hello_World!--  ", "x"), "hello-world");
    assert_eq!(slugify("中文", "0123456789abcdef"), "01234567");
    assert_eq!(slugify("", "abc"), "abc");
}

#[test]
fn preview_truncates_with_marker() {
    assert_eq!(preview_text("hello world", 2000), "hello world");
    assert_eq!(preview_text("hello world", 5), "hello\n\n...truncated...");
    assert_eq!(preview_text("hello", 5), "hello");
    assert_eq!(preview_text("中文字", 3), "中\n\n...truncated...");
}

#[test]
fn lint_report_name_gets_md_suffix() {
    assert_eq!(lint_report_file_name("weekly"), "weekly.md");
    assert_eq!(lint_report_file_name("weekly.md"), "weekly.md");
}

#[test]
fn lint_report_groups_by_severity_in_key_order() {
    let findings = vec![
        LintFinding {
            code: "page.broken_wikilink".to_string(),
            message: "missing [[Beta]]".to_string(),
            severity: LintSeverity::Warn,
            subject: Some("Alpha".to_string()),
        },
        LintFinding {
            code: "claim.stale".to_string(),
            message: "stale claim".to_string(),
            severity: LintSeverity::Error,
            subject: None,
        },
    ];
    let got = render_lint_report(&findings);
    assert_eq!(
        got,
        "# Lint Report\n\n- total findings: `2`\n\n## error\n\n- `claim.stale` stale claim\n\n## warn\n\n- `page.broken_wikilink` missing [[Beta]] (subject=Alpha)\n\n"
    );
    assert_eq!(render_lint_report(&[]), "# Lint Report\n\n- total findings: `0`\n\n");
}

#[test]
fn projection_stats_default_is_zero() {
    let s = ProjectionStats::default();
    assert_eq!(s.pages_written + s.claims_written + s.sources_written, 0);
}
