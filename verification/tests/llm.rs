use llm_wiki::llm::{
    ollama_version_supports_tools, ChatCompletion, ChatMessage, EmbedError, FinishReason,
    LlmError, OllamaConfig, OpenAiConfig, DEFAULT_OPENAI_BASE_URL, DEFAULT_OPENAI_MODEL,
};

#[test]
fn test_embed_error_display() {
    assert!(EmbedError::InitFailed("test".into()).to_string().contains("初始化失败"));
    assert!(EmbedError::InferenceFailed("x".into()).to_string().contains("推理失败"));
    assert!(EmbedError::InputTooLong { tokens: 600, limit: 512 }
        .to_string()
        .contains("600"));
    assert_eq!(EmbedError::Unavailable.to_string(), "Embed 服务不可用");
}

#[test]
fn embed_error_text_is_exact() {
    assert_eq!(
        EmbedError::InputTooLong { tokens: 600, limit: 512 }.to_string(),
        "输入过长: 600 tokens（上限 512）"
    );
    assert_eq!(EmbedError::InitFailed("m".into()).to_string(), "Embed 初始化失败: m");
}

#[test]
fn llm_error_text() {
    assert_eq!(LlmError::Timeout.to_string(), "请求超时");
    assert_eq!(LlmError::ModelNotFound("x".into()).to_string(), "模型不存在: x");
}

#[test]
fn test_default_config() {
    let config = OllamaConfig::default();
    assert_eq!(config.base_url, "http://localhost:11434");
    assert_eq!(config.model, "llama3:8b");
    assert_eq!(config.timeout_secs, 60);
}

#[test]
fn test_ollama_version_supports_tools() {
    assert!(ollama_version_supports_tools("0.4.0"));
    assert!(ollama_version_supports_tools("0.5.0"));
    assert!(ollama_version_supports_tools("1.0.0"));
    assert!(ollama_version_supports_tools("0.6.1"));
    assert!(!ollama_version_supports_tools("0.3.14"));
    assert!(!ollama_version_supports_tools("0.1.0"));
    assert!(!ollama_version_supports_tools("invalid"));
}

#[test]
fn test_config_new() {
    let config = OpenAiConfig::with_base_url_and_model(
        "sk-test".to_string(),
        DEFAULT_OPENAI_BASE_URL.to_string(),
        DEFAULT_OPENAI_MODEL.to_string(),
    );
    assert_eq!(config.api_key, "sk-test");
    assert_eq!(config.model, DEFAULT_OPENAI_MODEL);
    assert_eq!(config.base_url, DEFAULT_OPENAI_BASE_URL);
    assert_eq!(config.timeout_secs, 60);
}

#[test]
fn test_config_with_model() {
    let config = OpenAiConfig::with_base_url_and_model(
        "sk-test".to_string(),
        DEFAULT_OPENAI_BASE_URL.to_string(),
        "gpt-4o".to_string(),
    );
    assert_eq!(config.model, "gpt-4o");
    assert_eq!(config.base_url, DEFAULT_OPENAI_BASE_URL);
}

#[test]
fn chat_message_constructors() {
    let m = ChatMessage::user("hi".to_string());
    assert_eq!(m.role, "user");
    assert_eq!(m.content.as_deref(), Some("hi"));
    let t = ChatMessage::tool_result("c1".to_string(), "run_shell".to_string(), "ok".to_string());
    assert_eq!(t.role, "tool");
    assert_eq!(t.tool_call_id.as_deref(), Some("c1"));
    assert_eq!(t.name.as_deref(), Some("run_shell"));
    let s = ChatMessage::system("sys".to_string());
    assert_eq!(s.role, "system");
    let a = ChatMessage::assistant_with_tool_calls(vec![]);
    assert!(a.content.is_none());
}

#[test]
fn completion_constructors_and_reasons() {
    let c = ChatCompletion::text("x".to_string());
    assert!(matches!(c.finish_reason, FinishReason::Stop));
    assert!(c.tool_calls.is_empty());
    let t = ChatCompletion::with_tool_calls(vec![]);
    assert!(matches!(t.finish_reason, FinishReason::ToolCalls));
    assert!(matches!(FinishReason::from_wire("length"), FinishReason::Length));
    match FinishReason::from_wire("content_filter") {
        FinishReason::Other(s) => assert_eq!(s, "content_filter"),
        _ => panic!("expected Other"),
    }
}
