use llm_wiki::clip::{
    check_clip_request, clip_base_name, clip_file_name, clip_markdown, clip_result_body, clip_slug,
    parse_clip_request, project_body, projects_body, read_failure_body, route_clip, status_of,
    ClipRequest, ClipRoute, CLIP_SERVER_PORT, NOT_FOUND_BODY, STATUS_BODY,
};

fn req(title: &str, url: &str, content: &str, project: Option<&str>) -> ClipRequest {
    ClipRequest {
        title: title.to_string(),
        url: url.to_string(),
        content: content.to_string(),
        project_path: project.map(str::to_string),
    }
}

#[test]
fn routes_by_method_and_path() {
    assert_eq!(route_clip("OPTIONS", "/anything"), ClipRoute::Preflight);
    assert_eq!(route_clip("GET", "/status"), ClipRoute::Status);
    assert_eq!(route_clip("GET", "/project"), ClipRoute::Project);
    assert_eq!(route_clip("GET", "/projects"), ClipRoute::Projects);
    assert_eq!(route_clip("POST", "/clip"), ClipRoute::Clip);
    assert_eq!(route_clip("GET", "/clip"), ClipRoute::NotFound);
    assert_eq!(status_of(ClipRoute::Preflight), 204);
    assert_eq!(status_of(ClipRoute::NotFound), 404);
    assert_eq!(status_of(ClipRoute::Status), 200);
    assert_eq!(CLIP_SERVER_PORT, 19827);
    assert_eq!(STATUS_BODY, r#"{"ok":true,"version":"0.1.0"}"#);
    assert_eq!(NOT_FOUND_BODY, r#"{"ok":false,"error":"Not found"}"#);
}

#[test]
fn project_answers_use_forward_slashes() {
    assert_eq!(project_body("C:\\vaults\\notes"), r#"{"ok":true,"path":"C:/vaults/notes"}"#);
    assert_eq!(
        projects_body("C:\\vaults\\notes"),
        r#"{"ok":true,"projects":[{"name":"notes","path":"C:/vaults/notes","current":true}]}"#
    );
    assert_eq!(
        projects_body("/v/"),
        r#"{"ok":true,"projects":[{"name":"","path":"/v/","current":true}]}"#
    );
}

#[test]
fn clip_answers() {
    assert_eq!(
        clip_result_body(&Ok("raw/clips/a.md".to_string())),
        (200, r#"{"ok":true,"path":"raw/clips/a.md"}"#.to_string())
    );
    assert_eq!(
        clip_result_body(&Err("Content is empty".to_string())),
        (500, r#"{"ok":false,"error":"Content is empty"}"#.to_string())
    );
    assert_eq!(read_failure_body("eof"), r#"{"ok":false,"error":"Read failed: eof"}"#);
}

#[test]
fn parses_clip_with_defaults() {
    let c = parse_clip_request(r#"{"content": "body"}"#).unwrap();
    assert_eq!(c.title, "Untitled");
    assert_eq!(c.url, "");
    assert_eq!(c.content, "body");
    assert!(c.project_path.is_none());
    let c = parse_clip_request(r#"{"title": "T", "url": "u", "content": "c", "projectPath": "/p"}"#).unwrap();
    assert_eq!(c.project_path, Some("/p".to_string()));
    assert!(parse_clip_request("not json").is_err());
}

#[test]
fn clip_checks() {
    assert_eq!(
        check_clip_request(&req("t", "u", "", None), "/v"),
        Err("Content is empty".to_string())
    );
    assert_eq!(
        check_clip_request(&req("t", "u", "c", None), ""),
        Err("No vault is currently open".to_string())
    );
    assert_eq!(check_clip_request(&req("t", "u", "c", Some("C:\\v\\")), "C:/v"), Ok(()));
    assert_eq!(check_clip_request(&req("t", "u", "c", Some("")), "/v"), Ok(()));
    assert_eq!(
        check_clip_request(&req("t", "u", "c", Some("/other/")), "/v"),
        Err("Requested project '/other' does not match active vault '/v'".to_string())
    );
}

#[test]
fn clip_file_names() {
    assert_eq!(clip_slug("Hello, World!"), "hello-world");
    assert_eq!(clip_slug("--A  B--"), "a-b");
    assert_eq!(clip_slug("中文 标题"), "中文-标题");
    assert_eq!(clip_slug("!!!"), "");
    assert_eq!(clip_slug(&"x".repeat(80)).len(), 50);
    assert_eq!(clip_base_name("hello-world", "20240102"), "hello-world-20240102");
    assert_eq!(clip_base_name("", "20240102"), "clip-20240102");
    assert_eq!(clip_file_name("b", 1), "b.md");
    assert_eq!(clip_file_name("b", 3), "b-3.md");
}

#[test]
fn clip_markdown_escapes_front_matter() {
    let md = clip_markdown(&req("Say \"hi\"", "https://x", "Body", None), "2024-01-02");
    assert_eq!(
        md,
        "---\ntype: clip\ntitle: \"Say \\\"hi\\\"\"\nurl: \"https://x\"\nclipped: 2024-01-02\norigin: clipper\ntags: [clip]\n---\n\n# Say \"hi\"\n\nSource: https://x\n\nBody\n"
    );
}
