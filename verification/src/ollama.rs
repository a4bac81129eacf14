//! Ollama's streamed chat: the NDJSON lines of `/api/chat` cut out of the
//! response body, and what each decoded chunk emits and adds to the answer.
//! The HTTP exchange and the JSON decoding of a line are the caller's.
use crate::llm::{ChatCompletion, FinishReason, StreamEvent, ToolCall, ToolCallFunction};
use crate::stream::{events_are, EventView};
use crate::text::{chars_of, dec, extend_dec, extend_str, string_of, trim, trim_chars};
use vstd::prelude::*;
use vstd::string::StringExecFns;

verus! {

broadcast use vstd::string::group_string_axioms;

/// A tool call of a `done` chunk: the function's name and its arguments
/// serialized as JSON text.
#[derive(Debug, Clone)]
pub struct OllamaToolCall {
    pub name: String,
    pub arguments: String,
}

/// One decoded NDJSON chunk of `/api/chat`.
#[derive(Debug, Clone)]
pub struct OllamaChatChunk {
    /// Text of the message piece (empty when absent).
    pub content: String,
    /// Tool calls, which Ollama sends all at once in the `done` chunk.
    pub tool_calls: Vec<OllamaToolCall>,
    pub done: bool,
    pub done_reason: Option<String>,
}

/// Reading state of one streamed chat: the unterminated rest of the body
/// read so far, and the answer text accumulated so far.
pub struct OllamaStreamState {
    pub pending: String,
    pub content: String,
}

/// The reading state as plain values.
pub struct OllamaView {
    pub pending: Seq<char>,
    pub content: Seq<char>,
}

impl View for OllamaStreamState {
    type V = OllamaView;

    open spec fn view(&self) -> OllamaView {
        OllamaView { pending: self.pending@, content: self.content@ }
    }
}

impl OllamaStreamState {
    /// The state before the first byte of the body.
    pub fn new() -> (r: Self)
        ensures
            r@.pending == Seq::<char>::empty(),
            r@.content == Seq::<char>::empty(),
    {
        OllamaStreamState { pending: String::new(), content: String::new() }
    }
}

// ───────────────────────── lines ─────────────────────────

/// A text cut at each `'\n'`: the pieces between line breaks, the last one
/// being what follows the last break (always at least one piece).
pub open spec fn segments(s: Seq<char>) -> Seq<Seq<char>>
    decreases s.len(),
{
    if s.len() == 0 {
        seq![Seq::<char>::empty()]
    } else if s.last() == '\n' {
        segments(s.drop_last()).push(Seq::<char>::empty())
    } else {
        let p = segments(s.drop_last());
        p.update(p.len() - 1, p.last().push(s.last()))
    }
}

/// The non-blank lines among `ls`, trimmed, in order.
pub open spec fn kept_lines(ls: Seq<Seq<char>>) -> Seq<Seq<char>>
    decreases ls.len(),
{
    if ls.len() == 0 {
        seq![]
    } else if trim(ls.last()).len() == 0 {
        kept_lines(ls.drop_last())
    } else {
        kept_lines(ls.drop_last()).push(trim(ls.last()))
    }
}

/// The complete (`'\n'`-terminated) lines of a text, trimmed, blank ones dropped.
pub open spec fn complete_lines(s: Seq<char>) -> Seq<Seq<char>> {
    kept_lines(segments(s).drop_last())
}

/// What follows the last `'\n'` of a text (all of it when it has none).
pub open spec fn line_rest(s: Seq<char>) -> Seq<char> {
    segments(s).last()
}

proof fn lemma_segments_nonempty(s: Seq<char>)
    ensures
        segments(s).len() >= 1,
    decreases s.len(),
{
    if s.len() > 0 {
        lemma_segments_nonempty(s.drop_last());
    }
}

/// Appends a body piece to the pending rest and takes out the complete
/// lines: trimmed, blank ones dropped, in order. What follows the last line
/// break stays pending.
pub fn ollama_take_lines(state: &mut OllamaStreamState, chunk: &str) -> (lines: Vec<String>)
    ensures
        crate::text::string_views(lines@) == complete_lines(old(state).pending@ + chunk@),
        final(state).pending@ == line_rest(old(state).pending@ + chunk@),
        final(state).content@ == old(state).content@,
{
    let mut buf = chars_of(state.pending.as_str());
    extend_str(&mut buf, chunk);
    let ghost all = buf@;
    assert(all == old(state).pending@ + chunk@);
    let mut out: Vec<String> = Vec::new();
    let mut cur: Vec<char> = Vec::new();
    let ghost mut done: Seq<Seq<char>> = seq![];
    let mut i: usize = 0;
    while i < buf.len()
        invariant
            i <= buf.len(),
            buf@ == all,
            segments(all.take(i as int)) == done.push(cur@),
            crate::text::string_views(out@) == kept_lines(done),
        decreases buf.len() - i,
    {
        let c = buf[i];
        assert(all.take(i + 1).drop_last() =~= all.take(i as int));
        assert(all.take(i + 1).last() == c);
        proof {
            lemma_segments_nonempty(all.take(i as int));
        }
        if c == '\n' {
            let t = trim_chars(&cur);
            let ghost before = crate::text::string_views(out@);
            assert(done.push(cur@).drop_last() =~= done);
            assert(kept_lines(done.push(cur@)) == if trim(cur@).len() == 0 {
                kept_lines(done)
            } else {
                kept_lines(done).push(trim(cur@))
            });
            if t.len() > 0 {
                out.push(string_of(&t));
                assert(crate::text::string_views(out@) =~= before.push(t@));
            }
            proof {
                done = done.push(cur@);
            }
            cur = Vec::new();
            assert(segments(all.take(i + 1)) =~= done.push(cur@));
        } else {
            let ghost old_cur = cur@;
            cur.push(c);
            assert(segments(all.take(i + 1)) =~= done.push(cur@)) by {
                let p = segments(all.take(i as int));
                assert(p == done.push(old_cur));
                assert(p.update(p.len() - 1, p.last().push(c)) =~= done.push(old_cur.push(c)));
            }
        }
        i = i + 1;
    }
    assert(all.take(buf.len() as int) =~= all);
    assert(segments(all).drop_last() =~= done);
    state.pending = string_of(&cur);
    out
}

// ───────────────────────── chunks ─────────────────────────

/// Id the stream gives to the `k`-th tool call of the `done` chunk.
pub open spec fn call_id(k: u32) -> Seq<char> {
    "call_"@ + dec(k as nat)
}

/// Events of the first `n` tool calls: for each, its start (with id
/// `call_k` and name), its arguments when they are not empty, its end.
pub open spec fn call_events(calls: Seq<OllamaToolCall>, n: int) -> Seq<EventView>
    decreases n,
{
    if n <= 0 || n > calls.len() {
        seq![]
    } else {
        let k = (n - 1) as u32;
        let tc = calls[n - 1];
        call_events(calls, n - 1) + seq![EventView::Start(k, call_id(k), tc.name@)] + if tc.arguments@.len()
            > 0 {
            seq![EventView::Args(k, tc.arguments@)]
        } else {
            Seq::<EventView>::empty()
        } + seq![EventView::End(k)]
    }
}

/// Wire name of the reason a `done` chunk finishes with (`stop` when it gives none).
pub open spec fn done_reason_wire(chunk: OllamaChatChunk) -> Seq<char> {
    match chunk.done_reason {
        Some(r) => r@,
        None => "stop"@,
    }
}

/// Events a chunk emits: its text when not empty; then, for a `done`
/// chunk, the events of each tool call and the finish reason.
pub open spec fn ollama_events(st: OllamaView, chunk: OllamaChatChunk) -> Seq<EventView> {
    (if chunk.content@.len() > 0 {
        seq![EventView::Text(chunk.content@)]
    } else {
        Seq::<EventView>::empty()
    }) + if chunk.done {
        call_events(chunk.tool_calls@, chunk.tool_calls@.len() as int) + seq![
            EventView::Finish(done_reason_wire(chunk)),
        ]
    } else {
        Seq::<EventView>::empty()
    }
}

/// The state after a chunk: its text added to the answer.
pub open spec fn ollama_next(st: OllamaView, chunk: OllamaChatChunk) -> OllamaView {
    OllamaView { pending: st.pending, content: st.content + chunk.content@ }
}

/// Whether `c` is the completion a `done` chunk closes the answer `content`
/// with: the text, one tool call per chunk tool call (id `call_k`, kind
/// `function`, name and arguments as sent), the finish reason, no reasoning.
pub open spec fn ollama_completion(c: ChatCompletion, content: Seq<char>, chunk: OllamaChatChunk) -> bool {
    &&& c.content@ == content
    &&& c.tool_calls@.len() == chunk.tool_calls@.len()
    &&& forall|k: int|
        #![trigger c.tool_calls@[k]]
        0 <= k < c.tool_calls@.len() ==> {
            &&& c.tool_calls@[k].id@ == call_id(k as u32)
            &&& c.tool_calls@[k].kind@ == "function"@
            &&& c.tool_calls@[k].function.name@ == chunk.tool_calls@[k].name@
            &&& c.tool_calls@[k].function.arguments@ == chunk.tool_calls@[k].arguments@
        }
    &&& crate::llm::finish_reason_of(done_reason_wire(chunk), c.finish_reason)
    &&& c.reasoning_content is None
}

/// Handles one decoded chunk: the events it emits, the answer text it adds,
/// and, for a `done` chunk, the completed answer.
pub fn ollama_on_chunk(state: &mut OllamaStreamState, chunk: &OllamaChatChunk) -> (r: (
    Vec<StreamEvent>,
    Option<ChatCompletion>,
))
    ensures
        events_are(r.0@, ollama_events(old(state)@, *chunk)),
        final(state)@ == ollama_next(old(state)@, *chunk),
        r.1 is Some <==> chunk.done,
        r.1 matches Some(c) ==> ollama_completion(c, final(state)@.content, *chunk),
{
    let ghost st = old(state)@;
    let mut events: Vec<StreamEvent> = Vec::new();
    if chunk.content.unicode_len() > 0 {
        events.push(StreamEvent::TextDelta(String::from_str(chunk.content.as_str())));
    }
    let mut acc = chars_of(state.content.as_str());
    extend_str(&mut acc, chunk.content.as_str());
    state.content = string_of(&acc);
    assert(state@ == ollama_next(st, *chunk));
    let ghost text_part: Seq<EventView> = if chunk.content@.len() > 0 {
        seq![EventView::Text(chunk.content@)]
    } else {
        Seq::<EventView>::empty()
    };
    assert(events_are(events@, text_part));
    if !chunk.done {
        assert(ollama_events(st, *chunk) =~= text_part);
        return (events, None);
    }
    let calls = &chunk.tool_calls;
    let mut tool_calls: Vec<ToolCall> = Vec::new();
    let mut i: usize = 0;
    while i < calls.len()
        invariant
            i <= calls.len(),
            calls@ == chunk.tool_calls@,
            events_are(events@, text_part + call_events(calls@, i as int)),
            tool_calls@.len() == i,
            forall|k: int|
                #![trigger tool_calls@[k]]
                0 <= k < i ==> {
                    &&& tool_calls@[k].id@ == call_id(k as u32)
                    &&& tool_calls@[k].kind@ == "function"@
                    &&& tool_calls@[k].function.name@ == calls@[k].name@
                    &&& tool_calls@[k].function.arguments@ == calls@[k].arguments@
                },
        decreases calls.len() - i,
    {
        let idx: u32 = i as u32;
        assert(idx == (i as int) as u32);
        let mut idc = chars_of("call_");
        extend_dec(&mut idc, idx as u64);
        let id = string_of(&idc);
        let tc = &calls[i];
        let ghost before = events@;
        let ghost vs = text_part + call_events(calls@, i as int);
        events.push(
            StreamEvent::ToolCallStart {
                idx,
                id: String::from_str(id.as_str()),
                name: String::from_str(tc.name.as_str()),
            },
        );
        let has_args = tc.arguments.unicode_len() > 0;
        if has_args {
            events.push(
                StreamEvent::ToolCallArgsDelta { idx, args_chunk: String::from_str(tc.arguments.as_str()) },
            );
        }
        events.push(StreamEvent::ToolCallEnd { idx });
        let ghost added: Seq<EventView> = seq![EventView::Start(idx, call_id(idx), tc.name@)] + if tc.arguments@.len()
            > 0 {
            seq![EventView::Args(idx, tc.arguments@)]
        } else {
            Seq::<EventView>::empty()
        } + seq![EventView::End(idx)];
        assert(call_events(calls@, i + 1) =~= call_events(calls@, i as int) + added);
        assert(text_part + call_events(calls@, i + 1) =~= vs + added);
        assert(events_are(events@, vs + added)) by {
            assert forall|j: int| 0 <= j < events@.len() implies crate::stream::event_is(
                #[trigger] events@[j],
                (vs + added)[j],
            ) by {
                if j < before.len() {
                    assert(events@[j] == before[j]);
                }
            }
        }
        let ghost tcs_before = tool_calls@;
        tool_calls.push(
            ToolCall {
                id,
                kind: String::from_str("function"),
                function: ToolCallFunction {
                    name: String::from_str(tc.name.as_str()),
                    arguments: String::from_str(tc.arguments.as_str()),
                },
            },
        );
        assert forall|k: int| 0 <= k < i implies tool_calls@[k] == tcs_before[k] by {}
        i = i + 1;
    }
    assert(call_events(calls@, calls.len() as int) == call_events(chunk.tool_calls@, chunk.tool_calls@.len() as int));
    let finish_reason = finish_of(chunk);
    let announced = finish_of(chunk);
    let ghost before = events@;
    let ghost vs = text_part + call_events(calls@, calls.len() as int);
    events.push(StreamEvent::FinishReason(announced));
    assert(ollama_events(st, *chunk) =~= vs.push(EventView::Finish(done_reason_wire(*chunk))));
    assert(events_are(events@, vs.push(EventView::Finish(done_reason_wire(*chunk))))) by {
        assert forall|j: int| 0 <= j < events@.len() implies crate::stream::event_is(
            #[trigger] events@[j],
            vs.push(EventView::Finish(done_reason_wire(*chunk)))[j],
        ) by {
            if j < before.len() {
                assert(events@[j] == before[j]);
            }
        }
    }
    let c = ChatCompletion {
        content: String::from_str(state.content.as_str()),
        tool_calls,
        finish_reason,
        reasoning_content: None,
    };
    (events, Some(c))
}

/// The finish reason a `done` chunk gives.
fn finish_of(chunk: &OllamaChatChunk) -> (r: FinishReason)
    ensures
        crate::llm::finish_reason_of(done_reason_wire(*chunk), r),
{
    match &chunk.done_reason {
        Some(w) => FinishReason::from_wire(w.as_str()),
        None => FinishReason::from_wire("stop"),
    }
}

/// The answer of a stream that ended without a `done` chunk: the text
/// accumulated so far, finishing with `stop`.
pub fn ollama_end_of_stream(state: &OllamaStreamState) -> (r: ChatCompletion)
    ensures
        r.content@ == state@.content,
        r.tool_calls@.len() == 0,
        r.finish_reason is Stop,
        r.reasoning_content is None,
{
    ChatCompletion::text(String::from_str(state.content.as_str()))
}

} // verus!
