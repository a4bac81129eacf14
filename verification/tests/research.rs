use llm_wiki::research::{
    build_html_toc, heading_to_anchor, report_title, research_report_html, PAGE_END, PAGE_HEAD,
};

#[test]
fn anchors() {
    assert_eq!(heading_to_anchor("Hello World!"), "hello-world");
    assert_eq!(heading_to_anchor("--Top-Level--"), "top-level");
    assert_eq!(heading_to_anchor("背景 介绍"), "背景-介绍");
    assert_eq!(heading_to_anchor("Über Uns"), "über-uns");
}

#[test]
fn table_of_contents() {
    let md = "# T\n## One Two\ntext\n### Sub\n#### deep\n";
    assert_eq!(
        build_html_toc(md),
        "<ul><li><a href=\"#one-two\">One Two</a></li><li class=\"toc-h3\"><a href=\"#sub\">Sub</a></li></ul>"
    );
    assert_eq!(build_html_toc("# only\nbody"), "<ul><li><em>无目录</em></li></ul>");
}

#[test]
fn titles() {
    assert_eq!(report_title("intro\n#  My Report \n# Second"), "My Report");
    assert_eq!(report_title("no heading"), "研究报告");
    assert_eq!(report_title("# # Nested"), "Nested");
}

#[test]
fn report_page() {
    let html = research_report_html("# Report\n\n## Part\n\nSome *text*.\n");
    assert!(html.starts_with(PAGE_HEAD));
    assert!(html.ends_with(PAGE_END));
    assert!(html.contains("<title>Report</title>"));
    assert!(html.contains("<h2>Part</h2>"));
    assert!(html.contains("<em>text</em>"));
    assert!(html.contains("<a href=\"#part\">Part</a>"));
}
