use llm_wiki::llm::{FinishReason, StreamEvent};
use llm_wiki::stream::{
    chunk_parse_error, StreamAccumulator, StreamChoice, StreamChunk, StreamDelta,
    StreamToolCallDelta, StreamToolCallFunctionDelta,
};

fn text(s: &str) -> StreamChunk {
    StreamChunk {
        choices: vec![StreamChoice {
            delta: StreamDelta {
                content: Some(s.to_string()),
                reasoning_content: None,
                tool_calls: vec![],
            },
            finish_reason: None,
        }],
    }
}

fn finish(reason: &str) -> StreamChunk {
    StreamChunk {
        choices: vec![StreamChoice {
            delta: StreamDelta {
                content: None,
                reasoning_content: None,
                tool_calls: vec![],
            },
            finish_reason: Some(reason.to_string()),
        }],
    }
}

fn tool(index: u32, id: Option<&str>, name: Option<&str>, args: Option<&str>) -> StreamChunk {
    StreamChunk {
        choices: vec![StreamChoice {
            delta: StreamDelta {
                content: None,
                reasoning_content: None,
                tool_calls: vec![StreamToolCallDelta {
                    index,
                    id: id.map(str::to_string),
                    function: Some(StreamToolCallFunctionDelta {
                        name: name.map(str::to_string),
                        arguments: args.map(str::to_string),
                    }),
                }],
            },
            finish_reason: None,
        }],
    }
}

fn collect(acc: &mut StreamAccumulator, chunks: &[StreamChunk]) -> Vec<StreamEvent> {
    let mut events = Vec::new();
    for c in chunks {
        events.extend(acc.process_chunk(c));
    }
    events
}

#[test]
fn test_pure_text_stream() {
    let mut acc = StreamAccumulator::new();
    let chunks = [text("Hello"), text(", "), text("world"), text("!"), finish("stop")];
    let events = collect(&mut acc, &chunks);
    let text_deltas: Vec<&str> = events
        .iter()
        .filter_map(|e| {
            if let StreamEvent::TextDelta(s) = e {
                Some(s.as_str())
            } else {
                None
            }
        })
        .collect();
    assert_eq!(text_deltas, ["Hello", ", ", "world", "!"]);
    let completion = acc.into_completion();
    assert_eq!(completion.content, "Hello, world!");
    assert!(matches!(completion.finish_reason, FinishReason::Stop));
    assert!(completion.tool_calls.is_empty());
}

#[test]
fn test_single_tool_call_chunked_args() {
    let mut acc = StreamAccumulator::new();
    let chunks = [
        tool(0, Some("call_001"), Some("shell_exec"), Some("")),
        tool(0, None, None, Some("{\"cm")),
        tool(0, None, None, Some("d\":")),
        tool(0, None, None, Some("\"ls\"}")),
        finish("tool_calls"),
    ];
    let events = collect(&mut acc, &chunks);
    assert!(events
        .iter()
        .any(|e| matches!(e, StreamEvent::ToolCallStart { idx: 0, .. })));
    let args_deltas: Vec<_> = events
        .iter()
        .filter(|e| matches!(e, StreamEvent::ToolCallArgsDelta { .. }))
        .collect();
    assert_eq!(args_deltas.len(), 3);
    assert!(events
        .iter()
        .any(|e| matches!(e, StreamEvent::ToolCallEnd { idx: 0 })));
    assert!(events
        .iter()
        .any(|e| matches!(e, StreamEvent::FinishReason(FinishReason::ToolCalls))));
    let completion = acc.into_completion();
    assert_eq!(completion.tool_calls.len(), 1);
    assert_eq!(completion.tool_calls[0].function.name, "shell_exec");
    assert_eq!(completion.tool_calls[0].function.arguments, r#"{"cmd":"ls"}"#);
    assert!(matches!(completion.finish_reason, FinishReason::ToolCalls));
}

#[test]
fn test_text_and_tool_call_mixed() {
    let mut acc = StreamAccumulator::new();
    let chunks = [
        text("Thinking..."),
        tool(0, Some("call_002"), Some("get_date"), Some("{}")),
        finish("tool_calls"),
    ];
    let events = collect(&mut acc, &chunks);
    assert!(events.iter().any(|e| matches!(e, StreamEvent::TextDelta(_))));
    assert!(events
        .iter()
        .any(|e| matches!(e, StreamEvent::ToolCallStart { .. })));
    let completion = acc.into_completion();
    assert_eq!(completion.content, "Thinking...");
    assert_eq!(completion.tool_calls.len(), 1);
    assert_eq!(completion.tool_calls[0].function.name, "get_date");
}

#[test]
fn test_multiple_tool_calls() {
    let mut acc = StreamAccumulator::new();
    let chunks = [
        tool(0, Some("call_a"), Some("tool_a"), Some("")),
        tool(0, None, None, Some("{\"x\":1}")),
        tool(1, Some("call_b"), Some("tool_b"), Some("{\"y\":2}")),
        finish("tool_calls"),
    ];
    let events = collect(&mut acc, &chunks);
    let starts: Vec<_> = events
        .iter()
        .filter(|e| matches!(e, StreamEvent::ToolCallStart { .. }))
        .collect();
    assert_eq!(starts.len(), 2);
    let ends: Vec<_> = events
        .iter()
        .filter(|e| matches!(e, StreamEvent::ToolCallEnd { .. }))
        .collect();
    assert_eq!(ends.len(), 2);
    let completion = acc.into_completion();
    assert_eq!(completion.tool_calls.len(), 2);
    assert_eq!(completion.tool_calls[0].function.name, "tool_a");
    assert_eq!(completion.tool_calls[1].function.name, "tool_b");
}

#[test]
fn test_finish_reason_length() {
    let mut acc = StreamAccumulator::new();
    let chunks = [text("truncated text..."), finish("length")];
    let events = collect(&mut acc, &chunks);
    assert!(events
        .iter()
        .any(|e| matches!(e, StreamEvent::FinishReason(FinishReason::Length))));
    let completion = acc.into_completion();
    assert!(matches!(completion.finish_reason, FinishReason::Length));
    assert_eq!(completion.content, "truncated text...");
}

#[test]
fn end_events_come_in_ascending_index_order() {
    let mut acc = StreamAccumulator::new();
    let chunks = [
        tool(2, Some("c2"), Some("b"), None),
        tool(0, Some("c0"), Some("a"), None),
        tool(1, Some("c1"), Some("c"), None),
        finish("tool_calls"),
    ];
    let events = collect(&mut acc, &chunks);
    let ends: Vec<u32> = events
        .iter()
        .filter_map(|e| match e {
            StreamEvent::ToolCallEnd { idx } => Some(*idx),
            _ => None,
        })
        .collect();
    assert_eq!(ends, vec![0, 1, 2]);
    let completion = acc.into_completion();
    let ids: Vec<&str> = completion.tool_calls.iter().map(|c| c.id.as_str()).collect();
    assert_eq!(ids, vec!["c2", "c0", "c1"]);
    assert!(completion.tool_calls.iter().all(|c| c.kind == "function"));
}

#[test]
fn reasoning_is_kept_silently_and_empty_pieces_ignored() {
    let mut acc = StreamAccumulator::new();
    let chunk = StreamChunk {
        choices: vec![StreamChoice {
            delta: StreamDelta {
                content: Some(String::new()),
                reasoning_content: Some("think".to_string()),
                tool_calls: vec![],
            },
            finish_reason: None,
        }],
    };
    assert!(acc.process_chunk(&chunk).is_empty());
    let c = acc.into_completion();
    assert_eq!(c.reasoning_content, Some("think".to_string()));
    assert!(matches!(c.finish_reason, FinishReason::Stop));
    let empty = StreamAccumulator::new().into_completion();
    assert_eq!(empty.reasoning_content, None);
    assert_eq!(empty.content, "");
}

#[test]
fn unknown_finish_reason_is_kept() {
    let mut acc = StreamAccumulator::new();
    let events = acc.process_chunk(&finish("content_filter"));
    assert_eq!(events.len(), 1);
    match acc.into_completion().finish_reason {
        FinishReason::Other(s) => assert_eq!(s, "content_filter"),
        _ => panic!("expected other"),
    }
}

#[test]
fn parse_error_message_quotes_payload_prefix() {
    let payload = "x".repeat(150);
    let msg = chunk_parse_error("expected value", &payload);
    assert_eq!(
        msg,
        format!("解析流式块失败: expected value (payload 前100字符: {})", "x".repeat(100))
    );
}
