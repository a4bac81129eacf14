//! Accumulation of an OpenAI-style streamed chat response: each parsed
//! chunk of deltas yields events for the UI and grows the final completion.
use crate::agent_tools::opt_view;
use crate::llm::{finish_reason_of, ChatCompletion, FinishReason, StreamEvent, ToolCall, ToolCallFunction};
use crate::text::{chars_of, extend_chars, extend_str, string_of, take_chars, take_chars_exec};
use vstd::pervasive::VecAdditionalExecFns;
use vstd::prelude::*;
use vstd::string::StringExecFns;

verus! {

broadcast use vstd::string::group_string_axioms;

// ───────────────────────── wire records ─────────────────────────

/// Function part of a tool-call delta.
#[derive(Debug, Clone)]
pub struct StreamToolCallFunctionDelta {
    pub name: Option<String>,
    pub arguments: Option<String>,
}

/// A tool-call delta: which call (`index`), and what it adds.
#[derive(Debug, Clone)]
pub struct StreamToolCallDelta {
    pub index: u32,
    pub id: Option<String>,
    pub function: Option<StreamToolCallFunctionDelta>,
}

/// The delta of one choice.
#[derive(Debug, Clone)]
pub struct StreamDelta {
    pub content: Option<String>,
    pub reasoning_content: Option<String>,
    pub tool_calls: Vec<StreamToolCallDelta>,
}

/// One choice of a chunk.
#[derive(Debug, Clone)]
pub struct StreamChoice {
    pub delta: StreamDelta,
    pub finish_reason: Option<String>,
}

/// One parsed `data:` line of the stream.
#[derive(Debug, Clone)]
pub struct StreamChunk {
    pub choices: Vec<StreamChoice>,
}

// ───────────────────────── model ─────────────────────────

/// A tool call as accumulated so far.
pub struct CallView {
    pub idx: u32,
    pub id: Seq<char>,
    pub name: Seq<char>,
    pub args: Seq<char>,
}

/// What the accumulator holds: text, reasoning text, tool calls in the
/// order they started, and the wire name of the finish reason once sent.
pub struct AccView {
    pub content: Seq<char>,
    pub reasoning: Seq<char>,
    pub calls: Seq<CallView>,
    pub finish: Option<Seq<char>>,
}

/// An event as plain values.
pub enum EventView {
    Text(Seq<char>),
    Start(u32, Seq<char>, Seq<char>),
    Args(u32, Seq<char>),
    End(u32),
    Finish(Seq<char>),
}

/// Whether an event is the one a view describes.
pub open spec fn event_is(e: StreamEvent, v: EventView) -> bool {
    match v {
        EventView::Text(s) => e matches StreamEvent::TextDelta(t) && t@ == s,
        EventView::Start(i, id, name) => e matches StreamEvent::ToolCallStart { idx, id: a, name: b }
            && idx == i && a@ == id && b@ == name,
        EventView::Args(i, chunk) => e matches StreamEvent::ToolCallArgsDelta { idx, args_chunk }
            && idx == i && args_chunk@ == chunk,
        EventView::End(i) => e matches StreamEvent::ToolCallEnd { idx } && idx == i,
        EventView::Finish(w) => e matches StreamEvent::FinishReason(r) && finish_reason_of(w, r),
    }
}

/// Whether events are, one for one, those the views describe.
pub open spec fn events_are(es: Seq<StreamEvent>, vs: Seq<EventView>) -> bool {
    es.len() == vs.len() && forall|i: int| 0 <= i < es.len() ==> event_is(#[trigger] es[i], vs[i])
}

/// A text, or the empty text.
pub open spec fn or_empty(o: Option<String>) -> Seq<char> {
    match o {
        Some(s) => s@,
        None => seq![],
    }
}

/// Whether a call with index `idx` has started.
pub open spec fn has_call(calls: Seq<CallView>, idx: u32) -> bool {
    exists|i: int| 0 <= i < calls.len() && (#[trigger] calls[i]).idx == idx
}

/// Whether no two calls share an index.
pub open spec fn unique_calls(calls: Seq<CallView>) -> bool {
    forall|i: int, j: int| 0 <= i < j < calls.len() ==> (#[trigger] calls[i]).idx != (#[trigger] calls[j]).idx
}

/// `chunk` appended to the arguments of call `idx`.
pub open spec fn append_args(calls: Seq<CallView>, idx: u32, chunk: Seq<char>) -> Seq<CallView> {
    calls.map_values(
        |c: CallView|
            if c.idx == idx {
                CallView { idx: c.idx, id: c.id, name: c.name, args: c.args + chunk }
            } else {
                c
            },
    )
}

/// Name of the call a delta starts.
pub open spec fn tool_delta_name(tc: StreamToolCallDelta) -> Seq<char> {
    match tc.function {
        Some(f) => or_empty(f.name),
        None => seq![],
    }
}

/// The calls and events after a delta's start, before its arguments.
pub open spec fn tool_delta_step_started(calls: Seq<CallView>, tc: StreamToolCallDelta) -> (Seq<CallView>, Seq<EventView>) {
    if has_call(calls, tc.index) {
        (calls, Seq::<EventView>::empty())
    } else {
        (
            calls.push(CallView { idx: tc.index, id: or_empty(tc.id), name: tool_delta_name(tc), args: seq![] }),
            seq![EventView::Start(tc.index, or_empty(tc.id), tool_delta_name(tc))],
        )
    }
}

/// One tool-call delta applied: a new call starts (with its id and name)
/// the first time its index appears; a non-empty arguments piece is
/// appended.
pub open spec fn tool_delta_step(calls: Seq<CallView>, tc: StreamToolCallDelta) -> (Seq<CallView>, Seq<EventView>) {
    let started = tool_delta_step_started(calls, tc);
    match tc.function {
        Some(f) => match f.arguments {
            Some(a) => if a@.len() > 0 {
                (append_args(started.0, tc.index, a@), started.1.push(EventView::Args(tc.index, a@)))
            } else {
                started
            },
            None => started,
        },
        None => started,
    }
}

/// Tool-call deltas applied in order.
pub open spec fn tool_deltas_step(calls: Seq<CallView>, tcs: Seq<StreamToolCallDelta>) -> (Seq<CallView>, Seq<EventView>)
    decreases tcs.len(),
{
    if tcs.len() == 0 {
        (calls, seq![])
    } else {
        let (c1, e1) = tool_deltas_step(calls, tcs.drop_last());
        let (c2, e2) = tool_delta_step(c1, tcs.last());
        (c2, e1 + e2)
    }
}

/// `x` inserted into an ascending sequence before the first larger-or-equal element.
pub open spec fn insert_sorted(t: Seq<u32>, x: u32) -> Seq<u32>
    decreases t.len(),
{
    if t.len() == 0 {
        seq![x]
    } else if x <= t[0] {
        seq![x] + t
    } else {
        seq![t[0]] + insert_sorted(t.drop_first(), x)
    }
}

/// A sequence of indexes in ascending order.
pub open spec fn sorted_ids(s: Seq<u32>) -> Seq<u32>
    decreases s.len(),
{
    if s.len() == 0 {
        seq![]
    } else {
        insert_sorted(sorted_ids(s.drop_last()), s.last())
    }
}

/// Indexes of the calls, in the order they started.
pub open spec fn call_ids(calls: Seq<CallView>) -> Seq<u32> {
    calls.map_values(|c: CallView| c.idx)
}

/// The text event of a choice, if its text piece is not empty.
pub open spec fn text_events(ch: StreamChoice) -> Seq<EventView> {
    match ch.delta.content {
        Some(c) => if c@.len() > 0 {
            seq![EventView::Text(c@)]
        } else {
            Seq::<EventView>::empty()
        },
        None => Seq::<EventView>::empty(),
    }
}

/// One choice applied: reasoning and text pieces appended (text announced),
/// tool-call deltas applied, and on a finish reason an end event for every
/// started call (by ascending index) followed by the reason.
pub open spec fn choice_step(st: AccView, ch: StreamChoice) -> (AccView, Seq<EventView>) {
    let reasoning = match ch.delta.reasoning_content {
        Some(r) => st.reasoning + r@,
        None => st.reasoning,
    };
    let (content, text_ev) = match ch.delta.content {
        Some(c) => if c@.len() > 0 {
            (st.content + c@, seq![EventView::Text(c@)])
        } else {
            (st.content, Seq::<EventView>::empty())
        },
        None => (st.content, Seq::<EventView>::empty()),
    };
    let (calls, tool_ev) = tool_deltas_step(st.calls, ch.delta.tool_calls@);
    match ch.finish_reason {
        Some(w) => (
            AccView { content, reasoning, calls, finish: Some(w@) },
            text_ev + tool_ev + sorted_ids(call_ids(calls)).map_values(|i: u32| EventView::End(i))
                + seq![EventView::Finish(w@)],
        ),
        None => (AccView { content, reasoning, calls, finish: st.finish }, text_ev + tool_ev),
    }
}

/// Choices applied in order.
pub open spec fn choices_step(st: AccView, chs: Seq<StreamChoice>) -> (AccView, Seq<EventView>)
    decreases chs.len(),
{
    if chs.len() == 0 {
        (st, seq![])
    } else {
        let (s1, e1) = choices_step(st, chs.drop_last());
        let (s2, e2) = choice_step(s1, chs.last());
        (s2, e1 + e2)
    }
}

/// Whether `new` is `old` followed by events the views describe.
pub open spec fn extends_with(old: Seq<StreamEvent>, new: Seq<StreamEvent>, vs: Seq<EventView>) -> bool {
    &&& new.len() == old.len() + vs.len()
    &&& new.take(old.len() as int) == old
    &&& events_are(new.skip(old.len() as int), vs)
}

proof fn lemma_extends_refl(a: Seq<StreamEvent>)
    ensures
        extends_with(a, a, Seq::<EventView>::empty()),
{
    assert(a.take(a.len() as int) =~= a);
    assert(a.skip(a.len() as int) =~= Seq::<StreamEvent>::empty());
}

proof fn lemma_extends_push(a: Seq<StreamEvent>, e: StreamEvent, v: EventView)
    requires
        event_is(e, v),
    ensures
        extends_with(a, a.push(e), seq![v]),
{
    assert(a.push(e).take(a.len() as int) =~= a);
    assert(a.push(e).skip(a.len() as int) =~= seq![e]);
}

proof fn lemma_extends_trans(
    a: Seq<StreamEvent>,
    b: Seq<StreamEvent>,
    c: Seq<StreamEvent>,
    v1: Seq<EventView>,
    v2: Seq<EventView>,
)
    requires
        extends_with(a, b, v1),
        extends_with(b, c, v2),
    ensures
        extends_with(a, c, v1 + v2),
{
    assert(c.take(a.len() as int) =~= b.take(a.len() as int));
    let x = c.skip(a.len() as int);
    assert forall|i: int| 0 <= i < x.len() implies event_is(#[trigger] x[i], (v1 + v2)[i]) by {
        if i < v1.len() {
            assert(x[i] == b.skip(a.len() as int)[i]);
        } else {
            assert(x[i] == c.skip(b.len() as int)[i - v1.len()]);
        }
    }
}

// ───────────────────────── accumulator ─────────────────────────

struct ToolCallState {
    idx: u32,
    id: String,
    name: String,
    args: Vec<char>,
}

spec fn call_view(c: ToolCallState) -> CallView {
    CallView { idx: c.idx, id: c.id@, name: c.name@, args: c.args@ }
}

/// Accumulates the deltas of a streamed response, yields its events, and
/// builds the final completion.
pub struct StreamAccumulator {
    content: Vec<char>,
    reasoning_content: Vec<char>,
    calls: Vec<ToolCallState>,
    finish_reason: Option<String>,
}

impl View for StreamAccumulator {
    type V = AccView;

    closed spec fn view(&self) -> AccView {
        AccView {
            content: self.content@,
            reasoning: self.reasoning_content@,
            calls: self.calls@.map_values(|c: ToolCallState| call_view(c)),
            finish: opt_view(self.finish_reason),
        }
    }
}

fn copy_string(s: &String) -> (r: String)
    ensures
        r@ == s@,
{
    String::from_str(s.as_str())
}

fn copy_opt(o: &Option<String>) -> (r: String)
    ensures
        r@ == or_empty(*o),
{
    match o {
        Some(s) => copy_string(s),
        None => String::new(),
    }
}

impl StreamAccumulator {
    /// Whether no two started calls share an index.
    pub closed spec fn wf(&self) -> bool {
        unique_calls(self@.calls)
    }

    /// An accumulator before the first chunk.
    pub fn new() -> (r: Self)
        ensures
            r.wf(),
            r@.content == Seq::<char>::empty(),
            r@.reasoning == Seq::<char>::empty(),
            r@.calls == Seq::<CallView>::empty(),
            r@.finish is None,
    {
        let r = StreamAccumulator {
            content: Vec::new(),
            reasoning_content: Vec::new(),
            calls: Vec::new(),
            finish_reason: None,
        };
        assert(r@.calls =~= Seq::<CallView>::empty());
        r
    }

    fn position(&self, idx: u32) -> (r: Option<usize>)
        requires
            self.wf(),
        ensures
            match r {
                Some(p) => p < self.calls.len() && self@.calls[p as int].idx == idx,
                None => !has_call(self@.calls, idx),
            },
    {
        let mut i: usize = 0;
        while i < self.calls.len()
            invariant
                i <= self.calls.len(),
                forall|k: int| 0 <= k < i ==> self@.calls[k].idx != idx,
            decreases self.calls.len() - i,
        {
            if self.calls[i].idx == idx {
                return Some(i);
            }
            i = i + 1;
        }
        None
    }

    fn apply_tool_delta(&mut self, tc: &StreamToolCallDelta, events: &mut Vec<StreamEvent>)
        requires
            old(self).wf(),
        ensures
            final(self).wf(),
            final(self)@.content == old(self)@.content,
            final(self)@.reasoning == old(self)@.reasoning,
            final(self)@.finish == old(self)@.finish,
            final(self)@.calls == tool_delta_step(old(self)@.calls, *tc).0,
            extends_with(old(events)@, final(events)@, tool_delta_step(old(self)@.calls, *tc).1),
    {
        let idx = tc.index;
        let ghost calls0 = self@.calls;
        let ghost ev0 = events@;
        let ghost started = tool_delta_step_started(calls0, *tc);
        if self.position(idx).is_none() {
            let id = copy_opt(&tc.id);
            let name = match &tc.function {
                Some(f) => copy_opt(&f.name),
                None => String::new(),
            };
            let e = StreamEvent::ToolCallStart { idx, id: copy_string(&id), name: copy_string(&name) };
            proof {
                lemma_extends_push(events@, e, EventView::Start(idx, or_empty(tc.id), tool_delta_name(*tc)));
            }
            events.push(e);
            self.calls.push(ToolCallState { idx, id, name, args: Vec::new() });
            proof {
                assert(self@.calls =~= calls0.push(
                    CallView { idx, id: or_empty(tc.id), name: tool_delta_name(*tc), args: seq![] },
                ));
                assert(self@.calls[self@.calls.len() - 1].idx == idx);
                assert(seq![EventView::Start(idx, or_empty(tc.id), tool_delta_name(*tc))] =~= started.1);
            }
        } else {
            proof {
                lemma_extends_refl(events@);
                assert(started.1 =~= Seq::<EventView>::empty());
            }
        }
        assert(self@.calls == started.0);
        assert(has_call(self@.calls, idx));
        assert(self.wf());
        assert(extends_with(ev0, events@, started.1));
        match &tc.function {
            Some(f) => match &f.arguments {
                Some(a) => {
                    let ac = chars_of(a.as_str());
                    if ac.len() > 0 {
                        let p = match self.position(idx) {
                            Some(p) => p,
                            None => {
                                assert(false);
                                0
                            },
                        };
                        let ghost calls1 = self@.calls;
                        let ghost ev1 = events@;
                        let old_state = &self.calls[p];
                        assert(call_view(*old_state) == calls1[p as int]);
                        let mut args = crate::text::slice_chars(&old_state.args, 0, old_state.args.len());
                        extend_chars(&mut args, &ac);
                        assert(args@ =~= old_state.args@ + a@);
                        let st = ToolCallState {
                            idx: old_state.idx,
                            id: copy_string(&old_state.id),
                            name: copy_string(&old_state.name),
                            args,
                        };
                        let ghost old_calls = self.calls@;
                        self.calls.set(p, st);
                        let e = StreamEvent::ToolCallArgsDelta { idx, args_chunk: copy_string(a) };
                        proof {
                            lemma_extends_push(ev1, e, EventView::Args(idx, a@));
                            lemma_extends_trans(ev0, ev1, ev1.push(e), started.1, seq![EventView::Args(idx, a@)]);
                            assert(started.1 + seq![EventView::Args(idx, a@)] =~= started.1.push(EventView::Args(idx, a@)));
                        }
                        events.push(e);
                        proof {
                            assert forall|k: int| 0 <= k < calls1.len() implies #[trigger] self@.calls[k]
                                == append_args(calls1, idx, a@)[k] by {
                                if k != p {
                                    assert(self.calls@[k] == old_calls[k]);
                                    assert(calls1[k].idx != idx);
                                } else {
                                    assert(self.calls@[k] == st);
                                    assert(self@.calls[k] == call_view(st));
                                    assert(calls1[k].idx == idx);
                                }
                            }
                            assert(self@.calls =~= append_args(calls1, idx, a@));
                        }
                    }
                },
                None => {},
            },
            None => {},
        }
    }

    fn apply_choice(&mut self, ch: &StreamChoice, events: &mut Vec<StreamEvent>)
        requires
            old(self).wf(),
        ensures
            final(self).wf(),
            final(self)@ == choice_step(old(self)@, *ch).0,
            extends_with(old(events)@, final(events)@, choice_step(old(self)@, *ch).1),
    {
        let ghost st0 = self@;
        let ghost ev0 = events@;
        let ghost want = choice_step(st0, *ch);
        match &ch.delta.reasoning_content {
            Some(r) => extend_str(&mut self.reasoning_content, r.as_str()),
            None => {},
        }
        let ghost text_views = text_events(*ch);
        proof {
            lemma_extends_refl(events@);
        }
        match &ch.delta.content {
            Some(c) => {
                let cc = chars_of(c.as_str());
                if cc.len() > 0 {
                    extend_chars(&mut self.content, &cc);
                    let e = StreamEvent::TextDelta(copy_string(c));
                    proof {
                        lemma_extends_push(events@, e, EventView::Text(c@));
                    }
                    events.push(e);
                }
            },
            None => {},
        }
        assert(extends_with(ev0, events@, text_views));
        let ghost ev_text = events@;
        let ghost calls0 = self@.calls;
        let tcs = &ch.delta.tool_calls;
        proof {
            lemma_extends_refl(events@);
            assert(tcs@.take(0) =~= Seq::<StreamToolCallDelta>::empty());
        }
        let mut j: usize = 0;
        while j < tcs.len()
            invariant
                j <= tcs.len(),
                self.wf(),
                self@.content == want.0.content,
                self@.reasoning == want.0.reasoning,
                self@.finish == st0.finish,
                calls0 == st0.calls,
                self@.calls == tool_deltas_step(calls0, tcs@.take(j as int)).0,
                extends_with(ev_text, events@, tool_deltas_step(calls0, tcs@.take(j as int)).1),
            decreases tcs.len() - j,
        {
            let ghost prev = tool_deltas_step(calls0, tcs@.take(j as int));
            let ghost before = events@;
            assert(tcs@.take(j + 1).drop_last() =~= tcs@.take(j as int));
            assert(tcs@.take(j + 1).last() == tcs@[j as int]);
            self.apply_tool_delta(&tcs[j], events);
            proof {
                let step = tool_delta_step(prev.0, tcs@[j as int]);
                lemma_extends_trans(ev_text, before, events@, prev.1, step.1);
            }
            j = j + 1;
        }
        assert(tcs@.take(tcs.len() as int) =~= tcs@);
        let ghost tool_views = tool_deltas_step(calls0, tcs@).1;
        proof {
            lemma_extends_trans(ev0, ev_text, events@, text_views, tool_views);
        }
        let ghost ev_tools = events@;
        match &ch.finish_reason {
            Some(w) => {
                let ids = self.sorted_indices();
                let ghost ends = ids@.map_values(|i: u32| EventView::End(i));
                proof {
                    lemma_extends_refl(events@);
                    assert(ids@.take(0).map_values(|i: u32| EventView::End(i)) =~= Seq::<EventView>::empty());
                }
                let mut k: usize = 0;
                while k < ids.len()
                    invariant
                        k <= ids.len(),
                        extends_with(ev_tools, events@, ids@.take(k as int).map_values(|i: u32| EventView::End(i))),
                    decreases ids.len() - k,
                {
                    let e = StreamEvent::ToolCallEnd { idx: ids[k] };
                    let ghost before = events@;
                    proof {
                        lemma_extends_push(before, e, EventView::End(ids@[k as int]));
                        lemma_extends_trans(
                            ev_tools,
                            before,
                            before.push(e),
                            ids@.take(k as int).map_values(|i: u32| EventView::End(i)),
                            seq![EventView::End(ids@[k as int])],
                        );
                        assert(ids@.take(k as int).map_values(|i: u32| EventView::End(i)) + seq![EventView::End(ids@[k as int])]
                            =~= ids@.take(k + 1).map_values(|i: u32| EventView::End(i)));
                    }
                    events.push(e);
                    k = k + 1;
                }
                assert(ids@.take(ids.len() as int) =~= ids@);
                self.finish_reason = Some(copy_string(w));
                let e = StreamEvent::FinishReason(FinishReason::from_wire(w.as_str()));
                let ghost before = events@;
                proof {
                    lemma_extends_push(before, e, EventView::Finish(w@));
                    lemma_extends_trans(ev_tools, before, before.push(e), ends, seq![EventView::Finish(w@)]);
                    lemma_extends_trans(ev0, ev_tools, before.push(e), text_views + tool_views, ends + seq![EventView::Finish(w@)]);
                    assert(text_views + tool_views + (ends + seq![EventView::Finish(w@)]) =~= want.1);
                }
                events.push(e);
                proof {
                    assert(self@ =~= want.0);
                }
            },
            None => {
                proof {
                    assert(self@ =~= want.0);
                    assert(text_views + tool_views =~= want.1);
                }
            },
        }
    }

    fn sorted_indices(&self) -> (r: Vec<u32>)
        ensures
            r@ == sorted_ids(call_ids(self@.calls)),
    {
        let mut out: Vec<u32> = Vec::new();
        let mut i: usize = 0;
        while i < self.calls.len()
            invariant
                i <= self.calls.len(),
                out@ == sorted_ids(call_ids(self@.calls).take(i as int)),
            decreases self.calls.len() - i,
        {
            let x = self.calls[i].idx;
            let ghost ids = call_ids(self@.calls);
            assert(ids.take(i + 1).drop_last() =~= ids.take(i as int));
            assert(ids.take(i + 1).last() == x);
            insert_sorted_exec(&mut out, x);
            i = i + 1;
        }
        assert(call_ids(self@.calls).take(self.calls.len() as int) =~= call_ids(self@.calls));
        out
    }

    /// Applies one parsed chunk: returns its events, in order, and grows
    /// the accumulated state by the chunk's choices.
    pub fn process_chunk(&mut self, chunk: &StreamChunk) -> (r: Vec<StreamEvent>)
        requires
            old(self).wf(),
        ensures
            final(self).wf(),
            final(self)@ == choices_step(old(self)@, chunk.choices@).0,
            events_are(r@, choices_step(old(self)@, chunk.choices@).1),
    {
        let mut events: Vec<StreamEvent> = Vec::new();
        let ghost st0 = self@;
        proof {
            lemma_extends_refl(events@);
            assert(chunk.choices@.take(0) =~= Seq::<StreamChoice>::empty());
        }
        let mut i: usize = 0;
        while i < chunk.choices.len()
            invariant
                i <= chunk.choices.len(),
                self.wf(),
                self@ == choices_step(st0, chunk.choices@.take(i as int)).0,
                extends_with(Seq::<StreamEvent>::empty(), events@, choices_step(st0, chunk.choices@.take(i as int)).1),
            decreases chunk.choices.len() - i,
        {
            let ghost prev = choices_step(st0, chunk.choices@.take(i as int));
            let ghost before = events@;
            assert(chunk.choices@.take(i + 1).drop_last() =~= chunk.choices@.take(i as int));
            assert(chunk.choices@.take(i + 1).last() == chunk.choices@[i as int]);
            self.apply_choice(&chunk.choices[i], &mut events);
            proof {
                let step = choice_step(prev.0, chunk.choices@[i as int]);
                lemma_extends_trans(Seq::<StreamEvent>::empty(), before, events@, prev.1, step.1);
            }
            i = i + 1;
        }
        assert(chunk.choices@.take(chunk.choices.len() as int) =~= chunk.choices@);
        assert(events@.skip(0) =~= events@);
        events
    }

    /// The completion built from everything accumulated: text, tool calls in
    /// the order they started, the finish reason (`Stop` when none was
    /// sent), and the reasoning text when there was any.
    pub fn into_completion(self) -> (r: ChatCompletion)
        ensures
            r.content@ == self@.content,
            r.tool_calls@.len() == self@.calls.len(),
            forall|i: int|
                0 <= i < self@.calls.len() ==> {
                    let c = #[trigger] r.tool_calls@[i];
                    &&& c.id@ == self@.calls[i].id
                    &&& c.kind@ == "function"@
                    &&& c.function.name@ == self@.calls[i].name
                    &&& c.function.arguments@ == self@.calls[i].args
                },
            match self@.finish {
                Some(w) => finish_reason_of(w, r.finish_reason),
                None => r.finish_reason is Stop,
            },
            self@.reasoning.len() == 0 ==> r.reasoning_content is None,
            self@.reasoning.len() > 0 ==> (r.reasoning_content matches Some(s) && s@ == self@.reasoning),
    {
        let mut tool_calls: Vec<ToolCall> = Vec::new();
        let mut i: usize = 0;
        while i < self.calls.len()
            invariant
                i <= self.calls.len(),
                tool_calls.len() == i,
                forall|k: int|
                    0 <= k < i ==> {
                        let c = #[trigger] tool_calls@[k];
                        &&& c.id@ == self@.calls[k].id
                        &&& c.kind@ == "function"@
                        &&& c.function.name@ == self@.calls[k].name
                        &&& c.function.arguments@ == self@.calls[k].args
                    },
            decreases self.calls.len() - i,
        {
            let s = &self.calls[i];
            assert(self@.calls[i as int] == call_view(self.calls@[i as int]));
            tool_calls.push(
                ToolCall {
                    id: copy_string(&s.id),
                    kind: String::from_str("function"),
                    function: ToolCallFunction {
                        name: copy_string(&s.name),
                        arguments: string_of(&s.args),
                    },
                },
            );
            i = i + 1;
        }
        let finish_reason = match &self.finish_reason {
            Some(w) => FinishReason::from_wire(w.as_str()),
            None => FinishReason::Stop,
        };
        let reasoning_content = if self.reasoning_content.len() == 0 {
            None
        } else {
            Some(string_of(&self.reasoning_content))
        };
        ChatCompletion {
            content: string_of(&self.content),
            tool_calls,
            finish_reason,
            reasoning_content,
        }
    }
}

proof fn lemma_insert_sorted_at(t: Seq<u32>, x: u32, p: int)
    requires
        0 <= p <= t.len(),
        forall|k: int| 0 <= k < p ==> t[k] < x,
        p < t.len() ==> x <= t[p],
    ensures
        insert_sorted(t, x) == t.take(p) + seq![x] + t.skip(p),
    decreases t.len(),
{
    if t.len() == 0 {
        assert(t.take(p) + seq![x] + t.skip(p) =~= seq![x]);
    } else if x <= t[0] {
        assert(p == 0);
        assert(t.take(p) + seq![x] + t.skip(p) =~= seq![x] + t);
    } else {
        lemma_insert_sorted_at(t.drop_first(), x, p - 1);
        assert(t.take(p) + seq![x] + t.skip(p) =~= seq![t[0]] + (t.drop_first().take(p - 1) + seq![x]
            + t.drop_first().skip(p - 1)));
    }
}

fn insert_sorted_exec(v: &mut Vec<u32>, x: u32)
    ensures
        final(v)@ == insert_sorted(old(v)@, x),
{
    let mut p: usize = 0;
    while p < v.len() && v[p] < x
        invariant
            p <= v.len(),
            forall|k: int| 0 <= k < p ==> v@[k] < x,
        decreases v.len() - p,
    {
        p = p + 1;
    }
    proof {
        lemma_insert_sorted_at(v@, x, p as int);
    }
    v.insert(p, x);
    assert(v@ =~= old(v)@.take(p as int) + seq![x] + old(v)@.skip(p as int));
}

/// Message of a line that does not parse as a stream chunk: the parser's
/// error and the first 100 characters of the payload.
pub fn chunk_parse_error(error: &str, payload: &str) -> (r: String)
    ensures
        r@ == "解析流式块失败: "@ + error@ + " (payload 前100字符: "@ + take_chars(payload@, 100) + ")"@,
{
    let mut v = chars_of("解析流式块失败: ");
    extend_str(&mut v, error);
    extend_str(&mut v, " (payload 前100字符: ");
    let p = chars_of(payload);
    extend_chars(&mut v, &take_chars_exec(&p, 100));
    extend_str(&mut v, ")");
    string_of(&v)
}

/// Whether indexes are in ascending order.
pub open spec fn ascending(s: Seq<u32>) -> bool {
    forall|i: int, j: int| 0 <= i < j < s.len() ==> s[i] <= s[j]
}

proof fn lemma_insert_sorted(t: Seq<u32>, x: u32)
    requires
        ascending(t),
    ensures
        ascending(insert_sorted(t, x)),
        insert_sorted(t, x).len() == t.len() + 1,
        forall|i: int|
            0 <= i < insert_sorted(t, x).len() ==> #[trigger] insert_sorted(t, x)[i] == x || t.contains(
                insert_sorted(t, x)[i],
            ),
        insert_sorted(t, x).to_multiset() == t.to_multiset().insert(x),
    decreases t.len(),
{
    broadcast use vstd::multiset::group_multiset_axioms;
    broadcast use vstd::seq_lib::group_to_multiset_ensures;

    let r = insert_sorted(t, x);
    if t.len() == 0 {
        assert(seq![x] =~= Seq::<u32>::empty().push(x));
        assert(t.to_multiset() =~= vstd::multiset::Multiset::<u32>::empty());
    } else if x <= t[0] {
        vstd::seq_lib::lemma_multiset_commutative(seq![x], t);
        assert(seq![x] =~= Seq::<u32>::empty().push(x));
        assert(Seq::<u32>::empty().to_multiset() =~= vstd::multiset::Multiset::<u32>::empty());
        assert(r.to_multiset() =~= t.to_multiset().insert(x));
        assert forall|i: int| 0 <= i < r.len() implies #[trigger] r[i] == x || t.contains(r[i]) by {
            if i > 0 {
                assert(r[i] == t[i - 1]);
            }
        }
    } else {
        let rest = t.drop_first();
        lemma_insert_sorted(rest, x);
        let ri = insert_sorted(rest, x);
        assert(r == seq![t[0]] + ri);
        assert forall|i: int| 0 <= i < r.len() implies #[trigger] r[i] == x || t.contains(r[i]) by {
            if i > 0 {
                assert(r[i] == ri[i - 1]);
                if ri[i - 1] != x {
                    let k = choose|k: int| 0 <= k < rest.len() && rest[k] == ri[i - 1];
                    assert(t[k + 1] == rest[k]);
                }
            }
        }
        assert forall|i: int, j: int| 0 <= i < j < r.len() implies r[i] <= r[j] by {
            if i == 0 {
                assert(r[j] == ri[j - 1]);
                if ri[j - 1] != x {
                    let k = choose|k: int| 0 <= k < rest.len() && rest[k] == ri[j - 1];
                    assert(t[0] <= t[k + 1]);
                }
            } else {
                assert(r[i] == ri[i - 1]);
                assert(r[j] == ri[j - 1]);
            }
        }
        vstd::seq_lib::lemma_multiset_commutative(seq![t[0]], ri);
        vstd::seq_lib::lemma_multiset_commutative(seq![t[0]], rest);
        assert(t =~= seq![t[0]] + rest);
        assert(r.to_multiset() =~= t.to_multiset().insert(x));
    }
}

/// The end events of a finish come in ascending index order and name each
/// started call exactly once: `sorted_ids` is sorted and a permutation.
pub proof fn lemma_end_events_sorted(s: Seq<u32>)
    ensures
        ascending(sorted_ids(s)),
        sorted_ids(s).to_multiset() == s.to_multiset(),
    decreases s.len(),
{
    broadcast use vstd::seq_lib::group_to_multiset_ensures;

    if s.len() == 0 {
        assert(sorted_ids(s).to_multiset() =~= s.to_multiset());
    } else {
        lemma_end_events_sorted(s.drop_last());
        lemma_insert_sorted(sorted_ids(s.drop_last()), s.last());
        assert(s =~= s.drop_last().push(s.last()));
    }
}

/// The text pieces among events, concatenated.
pub open spec fn texts(vs: Seq<EventView>) -> Seq<char>
    decreases vs.len(),
{
    if vs.len() == 0 {
        seq![]
    } else {
        texts(vs.drop_last()) + match vs.last() {
            EventView::Text(t) => t,
            _ => seq![],
        }
    }
}

proof fn lemma_texts_concat(a: Seq<EventView>, b: Seq<EventView>)
    ensures
        texts(a + b) == texts(a) + texts(b),
    decreases b.len(),
{
    if b.len() == 0 {
        assert(a + b =~= a);
    } else {
        lemma_texts_concat(a, b.drop_last());
        assert((a + b).drop_last() =~= a + b.drop_last());
        assert((a + b).last() == b.last());
    }
}

/// Whether no event is a text piece.
pub open spec fn no_text(vs: Seq<EventView>) -> bool {
    forall|i: int| 0 <= i < vs.len() ==> !(#[trigger] vs[i] is Text)
}

proof fn lemma_no_text(vs: Seq<EventView>)
    requires
        no_text(vs),
    ensures
        texts(vs) == Seq::<char>::empty(),
    decreases vs.len(),
{
    if vs.len() > 0 {
        lemma_no_text(vs.drop_last());
        assert(!(vs[vs.len() - 1] is Text));
    }
}

proof fn lemma_tool_events_no_text(calls: Seq<CallView>, tcs: Seq<StreamToolCallDelta>)
    ensures
        no_text(tool_deltas_step(calls, tcs).1),
    decreases tcs.len(),
{
    if tcs.len() > 0 {
        lemma_tool_events_no_text(calls, tcs.drop_last());
        let (c1, e1) = tool_deltas_step(calls, tcs.drop_last());
        let e2 = tool_delta_step(c1, tcs.last()).1;
        assert(no_text(e2));
        assert forall|i: int| 0 <= i < (e1 + e2).len() implies !(#[trigger] (e1 + e2)[i] is Text) by {
            if i >= e1.len() {
                assert((e1 + e2)[i] == e2[i - e1.len()]);
            }
        }
    }
}

/// The answer text the accumulator holds grows by exactly the text pieces
/// it announces, in order.
pub proof fn lemma_content_is_announced_text(st: AccView, chs: Seq<StreamChoice>)
    ensures
        choices_step(st, chs).0.content == st.content + texts(choices_step(st, chs).1),
    decreases chs.len(),
{
    if chs.len() == 0 {
        assert(st.content + texts(Seq::<EventView>::empty()) =~= st.content);
    } else {
        lemma_content_is_announced_text(st, chs.drop_last());
        let (s1, e1) = choices_step(st, chs.drop_last());
        let ch = chs.last();
        let (s2, e2) = choice_step(s1, ch);
        let tv = text_events(ch);
        let tools = tool_deltas_step(s1.calls, ch.delta.tool_calls@);
        lemma_tool_events_no_text(s1.calls, ch.delta.tool_calls@);
        lemma_no_text(tools.1);
        lemma_texts_concat(tv, tools.1);
        assert(texts(tv) == match ch.delta.content {
            Some(c) => if c@.len() > 0 {
                c@
            } else {
                Seq::<char>::empty()
            },
            None => Seq::<char>::empty(),
        }) by {
            match ch.delta.content {
                Some(c) => if c@.len() > 0 {
                    assert(tv.drop_last() =~= Seq::<EventView>::empty());
                    assert(texts(tv.drop_last()) == Seq::<char>::empty());
                    assert(texts(tv) =~= c@);
                },
                None => {},
            }
        }
        match ch.finish_reason {
            Some(w) => {
                let tail = sorted_ids(call_ids(tools.0)).map_values(|i: u32| EventView::End(i)) + seq![
                    EventView::Finish(w@),
                ];
                assert(no_text(tail)) by {
                    assert forall|i: int| 0 <= i < tail.len() implies !(#[trigger] tail[i] is Text) by {
                    }
                }
                lemma_no_text(tail);
                lemma_texts_concat(tv + tools.1, tail);
                assert(e2 == tv + tools.1 + tail);
            },
            None => {
                assert(e2 == tv + tools.1);
            },
        }
        lemma_texts_concat(e1, e2);
        assert(s2.content =~= s1.content + texts(e2));
    }
}

} // verus!
