use llm_wiki::llm::{FinishReason, StreamEvent};
use llm_wiki::ollama::{
    ollama_end_of_stream, ollama_on_chunk, ollama_take_lines, OllamaChatChunk, OllamaStreamState, OllamaToolCall,
};

fn chunk(content: &str, done: bool) -> OllamaChatChunk {
    OllamaChatChunk { content: content.to_string(), tool_calls: Vec::new(), done, done_reason: None }
}

#[test]
fn ollama_lines_keep_the_unterminated_tail() {
    let mut st = OllamaStreamState::new();
    let a = ollama_take_lines(&mut st, "{\"a\":1}\n  \n {\"b\"");
    assert_eq!(a, vec!["{\"a\":1}".to_string()]);
    assert_eq!(st.pending, " {\"b\"");
    let b = ollama_take_lines(&mut st, ":2} \r\n");
    assert_eq!(b, vec!["{\"b\":2}".to_string()]);
    assert_eq!(st.pending, "");
    assert!(ollama_take_lines(&mut st, "no newline").is_empty());
    assert_eq!(st.pending, "no newline");
}

#[test]
fn ollama_text_chunks_accumulate() {
    let mut st = OllamaStreamState::new();
    let (ev, done) = ollama_on_chunk(&mut st, &chunk("Hel", false));
    assert!(done.is_none());
    assert!(matches!(&ev[..], [StreamEvent::TextDelta(t)] if t == "Hel"));
    let (ev, _) = ollama_on_chunk(&mut st, &chunk("", false));
    assert!(ev.is_empty());
    ollama_on_chunk(&mut st, &chunk("lo", false));
    assert_eq!(st.content, "Hello");
    let c = ollama_end_of_stream(&st);
    assert_eq!(c.content, "Hello");
    assert!(matches!(c.finish_reason, FinishReason::Stop));
}

#[test]
fn ollama_done_chunk_emits_tool_calls_and_finish() {
    let mut st = OllamaStreamState::new();
    ollama_on_chunk(&mut st, &chunk("ok", false));
    let last = OllamaChatChunk {
        content: String::new(),
        tool_calls: vec![
            OllamaToolCall { name: "read".to_string(), arguments: "{\"p\":1}".to_string() },
            OllamaToolCall { name: "ping".to_string(), arguments: String::new() },
        ],
        done: true,
        done_reason: Some("tool_calls".to_string()),
    };
    let (ev, c) = ollama_on_chunk(&mut st, &last);
    assert_eq!(ev.len(), 6);
    assert!(matches!(&ev[0], StreamEvent::ToolCallStart { idx: 0, id, name } if id == "call_0" && name == "read"));
    assert!(matches!(&ev[1], StreamEvent::ToolCallArgsDelta { idx: 0, args_chunk } if args_chunk == "{\"p\":1}"));
    assert!(matches!(&ev[2], StreamEvent::ToolCallEnd { idx: 0 }));
    assert!(matches!(&ev[3], StreamEvent::ToolCallStart { idx: 1, id, .. } if id == "call_1"));
    assert!(matches!(&ev[4], StreamEvent::ToolCallEnd { idx: 1 }));
    assert!(matches!(&ev[5], StreamEvent::FinishReason(FinishReason::ToolCalls)));
    let c = c.unwrap();
    assert_eq!(c.content, "ok");
    assert_eq!(c.tool_calls.len(), 2);
    assert_eq!(c.tool_calls[1].id, "call_1");
    assert_eq!(c.tool_calls[0].kind, "function");
    assert_eq!(c.tool_calls[0].function.arguments, "{\"p\":1}");
    assert!(matches!(c.finish_reason, FinishReason::ToolCalls));
    let (_, c2) = ollama_on_chunk(&mut OllamaStreamState::new(), &chunk("", true));
    assert!(matches!(c2.unwrap().finish_reason, FinishReason::Stop));
}
