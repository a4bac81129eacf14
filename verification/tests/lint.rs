use llm_wiki::lint::{basic_lint, LintClaim, LintPage};
use llm_wiki::wiki_core::LintSeverity;

fn page(id: &str, title: &str, md: &str) -> LintPage {
    LintPage {
        id: id.to_string(),
        title: title.to_string(),
        markdown: md.to_string(),
    }
}

fn claim(id: &str, text: &str, low_quality: bool, stale: bool) -> LintClaim {
    LintClaim {
        id: id.to_string(),
        text: text.to_string(),
        low_quality,
        stale,
    }
}

#[test]
fn lint_reports_broken_wikilink() {
    let pages = vec![page("p1", "Alpha", "Link to [[MissingPage]]")];
    let findings = basic_lint(&[], &pages);
    assert!(findings.iter().any(|f| f.code == "page.broken_wikilink"));
}

#[test]
fn lint_findings_in_order() {
    let pages = vec![
        page("p1", "Alpha", "See [[Beta]] and [[Gamma]]. Redis caching here."),
        page("p2", "Beta", "Back to [[Alpha]]"),
        page("p3", "  ", ""),
    ];
    let claims = vec![
        claim("c1", "Redis caching", true, false),
        claim("c2", "Kafka streaming", false, false),
        claim("c3", "old", false, true),
    ];
    let f = basic_lint(&claims, &pages);
    let got: Vec<(String, LintSeverity, String)> = f
        .iter()
        .map(|x| (x.code.clone(), x.severity, x.subject.clone().unwrap()))
        .collect();
    let want = vec![
        ("quality.low", LintSeverity::Warn, "c1"),
        ("lifecycle.stale", LintSeverity::Info, "c3"),
        ("page.broken_wikilink", LintSeverity::Warn, "p1"),
        ("page.empty_title", LintSeverity::Error, "p3"),
        ("page.orphan", LintSeverity::Info, "p3"),
        ("xref.missing", LintSeverity::Info, "c2"),
        ("claim.stale", LintSeverity::Warn, "c3"),
    ];
    let want: Vec<(String, LintSeverity, String)> = want
        .into_iter()
        .map(|(c, s, id)| (c.to_string(), s, id.to_string()))
        .collect();
    assert_eq!(got, want);
    assert_eq!(f[2].message, "broken wikilink: Gamma");
}

#[test]
fn lint_of_empty_wiki_is_empty() {
    assert!(basic_lint(&[], &[]).is_empty());
}

#[test]
fn every_finding_names_a_subject() {
    let pages = vec![page("p1", "", "[[x]]")];
    let claims = vec![claim("c1", "anything long", true, true)];
    let f = basic_lint(&claims, &pages);
    assert!(!f.is_empty());
    assert!(f.iter().all(|x| x.subject.is_some()));
}
