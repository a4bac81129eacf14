use llm_wiki::browser::{
    browser_fetch_result, extract_domain, extract_title, html_to_text, static_fetch_from_html,
    static_fetch_result, FetchOptions,
};
use llm_wiki::browser::{check_context_url, check_external_url, url_context_card, FetchResult};

#[test]
fn extract_domain_works() {
    assert_eq!(extract_domain("https://example.com/path"), "example.com");
    assert_eq!(
        extract_domain("https://sub.example.com/a/b"),
        "sub.example.com"
    );
}

#[test]
fn extract_domain_strips_www_and_handles_short_urls() {
    assert_eq!(extract_domain("https://www.example.com/x"), "example.com");
    assert_eq!(extract_domain("https://www.www.example.com"), "example.com");
    assert_eq!(extract_domain("example.com"), "");
    assert_eq!(extract_domain(""), "");
}

#[test]
fn fetch_options_default() {
    let o = FetchOptions::default();
    assert_eq!(o.timeout_secs, 30);
    assert_eq!(o.virtual_time_budget_ms, 5000);
}

#[test]
fn static_fetch_record() {
    let r = static_fetch_result("正文".to_string(), "T".to_string(), "https://www.a.org/p");
    assert_eq!(r.domain, "a.org");
    assert_eq!(r.char_count, 6);
    assert_eq!(r.fetch_method, "static_http");
    assert_eq!(r.url, "https://www.a.org/p");
}

#[test]
fn browser_fetch_needs_enough_text() {
    let short = browser_fetch_result("tiny".to_string(), "T".to_string(), "https://a.org", "chrome");
    assert_eq!(short.unwrap_err(), "CDP 渲染内容过少（4 字符），视为失败");
    let long = browser_fetch_result("x".repeat(100), "T".to_string(), "https://a.org", "edge").unwrap();
    assert_eq!(long.fetch_method, "cdp_edge");
    assert_eq!(long.char_count, 100);
}

#[test]
fn html_to_text_strips_script_tags() {
    let html = "<html><head><title>T</title></head><body><script>var x=1;</script><p>Hello World</p></body></html>";
    let text = html_to_text(html);
    assert!(text.contains("Hello World"), "should contain body text");
    assert!(!text.contains("var x"), "should strip script content");
}

#[test]
fn html_to_text_decodes_entities() {
    let html = "<p>&amp; &lt; &gt; &nbsp;</p>";
    let text = html_to_text(html);
    assert!(text.contains("&"), "should decode &amp;");
    assert!(text.contains("<"), "should decode &lt;");
}

#[test]
fn html_text_collapses_space_and_reads_title() {
    assert_eq!(html_to_text("<b>a</b>   b\n\n\n\nc"), "a b\n\nc");
    assert_eq!(extract_title("<html><TITLE x=1> A &amp; B </title></html>"), "A & B");
    assert_eq!(extract_title("<p>none</p>"), "");
    let r = static_fetch_from_html("<title>T</title><p>body text</p>", "https://www.x.org/a");
    assert_eq!(r.title, "T");
    assert_eq!(r.text, "T body text");
    assert_eq!(r.domain, "x.org");
    assert_eq!(r.char_count, 11);
}

#[test]
fn context_url_must_not_be_blank() {
    assert_eq!(check_context_url("   "), Err("URL 不能为空".to_string()));
    assert_eq!(check_context_url(""), Err("URL 不能为空".to_string()));
    assert_eq!(check_context_url(" https://a.b "), Ok(()));
}

#[test]
fn context_card_cuts_summary_to_3000_chars() {
    let long: String = std::iter::repeat('字').take(3005).collect();
    let card = url_context_card(FetchResult {
        title: "T".to_string(),
        text: long,
        url: "https://x.y/z".to_string(),
        domain: "x.y".to_string(),
        char_count: 9015,
        fetch_method: "static_http".to_string(),
    });
    assert_eq!(card.summary.chars().count(), 3000);
    assert_eq!(card.title, "T");
    assert_eq!(card.domain, "x.y");
    assert_eq!(card.char_count, 9015);
    assert_eq!(card.fetch_method, "static_http");
    let short = url_context_card(FetchResult {
        title: String::new(),
        text: "abc".to_string(),
        url: String::new(),
        domain: String::new(),
        char_count: 3,
        fetch_method: "cdp_chrome".to_string(),
    });
    assert_eq!(short.summary, "abc");
}

#[test]
fn only_web_urls_open_outside() {
    assert_eq!(check_external_url("https://example.com"), Ok(()));
    assert_eq!(check_external_url("http://x"), Ok(()));
    assert_eq!(check_external_url("file:///etc/passwd"), Err("只允许 http/https URL".to_string()));
    assert_eq!(check_external_url(" https://x"), Err("只允许 http/https URL".to_string()));
}
