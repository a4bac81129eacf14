use llm_wiki::html_text::extract_html_text;

fn long_text() -> String {
    let words: Vec<String> = (0..30).map(|i| format!("word{i}")).collect();
    words.join(" ")
}

#[test]
fn main_area_text_skips_scripts_and_chrome() {
    let body = long_text();
    let html = format!(
        "<html><head><title>T</title></head><body><nav>Menu</nav><main><h1>  Title  </h1><p>{body}</p><script>var x = 1;</script><aside>side</aside></main></body></html>"
    );
    assert_eq!(extract_html_text(&html), format!("Title {body}"));
}

#[test]
fn short_main_falls_back_to_body() {
    let body = long_text();
    let html = format!("<html><body><nav>Menu stuff</nav><main>short</main><div>{body}</div></body></html>");
    assert_eq!(extract_html_text(&html), format!("short {body}"));
}

#[test]
fn role_main_is_used_when_there_is_no_main_or_article() {
    let body = long_text();
    let html = format!("<html><body><div>intro</div><div role=\"main\">{body}</div></body></html>");
    assert_eq!(extract_html_text(&html), body);
}

#[test]
fn tiny_page_gives_all_its_text_pieces() {
    let html = "<html><head><title>T</title></head><body><p>a</p><p>b</p></body></html>";
    assert_eq!(extract_html_text(html), "T a b");
}
