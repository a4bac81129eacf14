use llm_wiki::json::parse_json;
use llm_wiki::registry::{
    extract_env_keys, parse_connection, parse_smithery_detail, parse_smithery_servers,
    percent_encode_path, percent_encode_query, smithery_detail_url, smithery_search_url,
};

#[test]
fn percent_encoding() {
    assert_eq!(percent_encode_query("a b&c"), "a+b%26c");
    assert_eq!(percent_encode_query("Az09-_.~"), "Az09-_.~");
    assert_eq!(percent_encode_query("中"), "%E4%B8%AD");
    assert_eq!(percent_encode_path("@scope/pkg name"), "%40scope%2Fpkg%20name");
    assert_eq!(percent_encode_query("é😀"), "%C3%A9%F0%9F%98%80");
}

#[test]
fn registry_urls() {
    assert_eq!(
        smithery_search_url("web search", 20),
        "https://registry.smithery.ai/servers?q=web+search&pageSize=20"
    );
    assert_eq!(
        smithery_detail_url("@org/srv"),
        "https://registry.smithery.ai/servers/%40org%2Fsrv"
    );
}

#[test]
fn server_list_is_capped_and_defaulted() {
    let body = parse_json(
        r#"{"servers":[{"qualifiedName":"a","displayName":"A","description":"d","verified":true,"useCount":7,"iconUrl":"i"},{"qualifiedName":"b","iconUrl":""},{"qualifiedName":"c"}]}"#,
    )
    .unwrap();
    let s = parse_smithery_servers(&body, 2);
    assert_eq!(s.len(), 2);
    assert_eq!(s[0].display_name, "A");
    assert!(s[0].verified);
    assert_eq!(s[0].use_count, 7);
    assert_eq!(s[0].icon_url, Some("i".to_string()));
    assert_eq!(s[1].display_name, "b");
    assert_eq!(s[1].icon_url, None);
    assert!(!s[1].verified);
    let none = parse_json("{}").unwrap();
    assert!(parse_smithery_servers(&none, 5).is_empty());
}

#[test]
fn env_keys_from_schema() {
    let schema = parse_json(
        r#"{"required":["region"],"properties":{"apiKey":{},"region":{},"verbose":{}},"env":{"GITHUB_TOKEN":{},"HOME":{},"apiKey":{}}}"#,
    )
    .unwrap();
    assert_eq!(
        extract_env_keys(&schema),
        vec!["apiKey".to_string(), "region".to_string(), "GITHUB_TOKEN".to_string()]
    );
}

#[test]
fn connection_launch_commands() {
    let body = parse_json(
        r#"{"connections":[{"type":"http"},{"type":"stdio","configSchema":{"command":{"default":"node"},"args":{"default":["srv.js",3,"--x"]},"properties":{"SECRET_X":{}}}}]}"#,
    )
    .unwrap();
    let (cmd, args, keys) = parse_connection(&body, "@o/s");
    assert_eq!(cmd, "node");
    assert_eq!(args, vec!["srv.js".to_string(), "--x".to_string()]);
    assert_eq!(keys, vec!["SECRET_X".to_string()]);

    let nothing = parse_json("{}").unwrap();
    let (cmd, args, keys) = parse_connection(&nothing, "@o/s");
    assert_eq!(cmd, "npx");
    assert_eq!(args, vec!["-y".to_string(), "@o/s".to_string()]);
    assert!(keys.is_empty());

    let no_cmd = parse_json(r#"{"connections":[{"configSchema":{"properties":{"API_URL":{}}}}]}"#).unwrap();
    let (cmd, _, keys) = parse_connection(&no_cmd, "x");
    assert_eq!(cmd, "npx");
    assert_eq!(keys, vec!["API_URL".to_string()]);

    let d = parse_smithery_detail(&body, "@o/s");
    assert_eq!(d.display_name, "@o/s");
    assert_eq!(d.command, "node");
}
