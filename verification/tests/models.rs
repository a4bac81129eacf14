use llm_wiki::models::get_llm_provider_presets;

#[test]
fn provider_presets_list_three_providers() {
    let p = get_llm_provider_presets();
    assert_eq!(p.len(), 3);
    assert_eq!(p[0], ("OpenAI".to_string(), "https://api.openai.com/v1".to_string(), "gpt-4o-mini".to_string()));
    assert_eq!(p[1].0, "DeepSeek");
    assert_eq!(p[2].1, "https://api.moonshot.cn/v1");
}
