//! The bridge to an external memory-palace engine: the sink it implements,
//! a sink that does nothing, and the replay of the kernel's event outbox
//! (newline-delimited JSON, one event per line) into a sink.
use crate::text::{chars_of, extend_chars, extend_str, string_of, string_views, trim, trim_chars, views};
use crate::wiki_core::{lines, lines_exec, Scope, WikiEvent};
use vstd::prelude::*;
use vstd::string::StringExecFns;

verus! {

broadcast use vstd::string::group_string_axioms;

/// The failure an external memory backend reports.
#[derive(Debug, Clone, PartialEq, Eq)]
pub enum MempalaceError {
    Backend(String),
}

/// How a backend failure reads.
pub open spec fn mempalace_error_text(e: MempalaceError) -> Seq<char> {
    match e {
        MempalaceError::Backend(m) => "external memory backend error: "@ + m@,
    }
}

impl MempalaceError {
    /// The message: `external memory backend error: <detail>`.
    pub fn to_string(&self) -> (r: String)
        ensures
            r@ == mempalace_error_text(*self),
    {
        match self {
            MempalaceError::Backend(m) => {
                let mut v = chars_of("external memory backend error: ");
                extend_str(&mut v, m.as_str());
                string_of(&v)
            },
        }
    }
}

/// A claim as the sink receives it when it is written.
#[derive(Debug, Clone)]
pub struct ClaimSnapshot {
    pub id: u128,
    pub text: String,
    pub stale: bool,
}

/// A call the outbox replay makes on a sink.
#[derive(Debug, Clone, Copy, PartialEq, Eq, Structural)]
pub enum SinkCall {
    /// `on_claim_event(claim_id)`.
    ClaimEvent(u128),
    /// `on_claim_superseded(old, new)`.
    Superseded(u128, u128),
}

/// The minimal event surface of an external memory engine: a claim written,
/// touched, superseded, linked to a source, and which scopes it accepts.
pub trait MempalaceWikiSink {
    /// Whether `r` is an answer this sink gives to `call` (each sink says
    /// what it answers; a sink that promises nothing answers anything).
    open spec fn sink_answers(&self, call: SinkCall, r: Result<(), MempalaceError>) -> bool {
        true
    }

    fn on_claim_upserted(&self, claim: &ClaimSnapshot) -> Result<(), MempalaceError>;

    fn on_claim_event(&self, claim_id: u128) -> (r: Result<(), MempalaceError>)
        ensures
            self.sink_answers(SinkCall::ClaimEvent(claim_id), r),
    ;

    fn on_claim_superseded(&self, old: u128, new: u128) -> (r: Result<(), MempalaceError>)
        ensures
            self.sink_answers(SinkCall::Superseded(old, new), r),
    ;

    fn on_source_linked(&self, source_id: u128, claim_id: u128) -> Result<(), MempalaceError>;

    fn scope_filter(&self, scope: &Scope) -> bool;
}

/// A sink that accepts everything and does nothing.
#[derive(Debug, Default, Clone, Copy)]
pub struct NoopMempalace;

impl MempalaceWikiSink for NoopMempalace {
    open spec fn sink_answers(&self, call: SinkCall, r: Result<(), MempalaceError>) -> bool {
        r is Ok
    }

    fn on_claim_upserted(&self, claim: &ClaimSnapshot) -> (r: Result<(), MempalaceError>)
        ensures
            r is Ok,
    {
        Ok(())
    }

    fn on_claim_event(&self, claim_id: u128) -> (r: Result<(), MempalaceError>)
        ensures
            r is Ok,
    {
        Ok(())
    }

    fn on_claim_superseded(&self, old: u128, new: u128) -> (r: Result<(), MempalaceError>)
        ensures
            r is Ok,
    {
        Ok(())
    }

    fn on_source_linked(&self, source_id: u128, claim_id: u128) -> (r: Result<(), MempalaceError>)
        ensures
            r is Ok,
    {
        Ok(())
    }

    fn scope_filter(&self, scope: &Scope) -> (r: bool)
        ensures
            r,
    {
        true
    }
}

/// Whether a decoded outbox line is a claim event the sink is told of.
pub open spec fn forwarded(e: Result<WikiEvent, String>) -> bool {
    match e {
        Ok(WikiEvent::ClaimUpserted { .. }) => true,
        Ok(WikiEvent::ClaimSuperseded { .. }) => true,
        _ => false,
    }
}

/// How many decoded lines are claim events the sink is told of.
pub open spec fn forwarded_count(es: Seq<Result<WikiEvent, String>>) -> nat
    decreases es.len(),
{
    if es.len() == 0 {
        0
    } else {
        forwarded_count(es.drop_last()) + if forwarded(es.last()) {
            1nat
        } else {
            0nat
        }
    }
}

/// The lines of an outbox text that hold an event: each line trimmed,
/// blank lines dropped.
pub open spec fn outbox_line_views(ndjson: Seq<char>) -> Seq<Seq<char>> {
    lines(ndjson).map_values(|l: Seq<char>| trim(l)).filter(|l: Seq<char>| l.len() > 0)
}

/// The lines of an outbox text that hold an event, trimmed, in order.
pub fn outbox_lines(ndjson: &str) -> (r: Vec<String>)
    ensures
        string_views(r@) == outbox_line_views(ndjson@),
{
    let parts = lines_exec(&chars_of(ndjson));
    let ghost tv = views(parts@).map_values(|l: Seq<char>| trim(l));
    let ghost keep = |l: Seq<char>| l.len() > 0;
    let mut out: Vec<String> = Vec::new();
    let mut i: usize = 0;
    while i < parts.len()
        invariant
            i <= parts.len(),
            views(parts@) == lines(ndjson@),
            tv == views(parts@).map_values(|l: Seq<char>| trim(l)),
            keep == (|l: Seq<char>| l.len() > 0),
            string_views(out@) == tv.take(i as int).filter(keep),
        decreases parts.len() - i,
    {
        let t = trim_chars(&parts[i]);
        assert(tv[i as int] == t@);
        let ghost pre = tv.take(i as int);
        assert(tv.take(i + 1) =~= pre.push(t@));
        assert(tv.take(i + 1).filter(keep) == if t@.len() > 0 {
            pre.filter(keep).push(t@)
        } else {
            pre.filter(keep)
        }) by {
            pre.lemma_filter_push(t@, keep);
        }
        if t.len() > 0 {
            let ghost before = string_views(out@);
            out.push(string_of(&t));
            assert(string_views(out@) =~= before.push(t@));
        }
        i = i + 1;
    }
    assert(tv.take(parts.len() as int) =~= tv);
    out
}

/// The sink call a decoded event asks for: a claim write becomes
/// `on_claim_event`, a supersession `on_claim_superseded`, others none.
pub open spec fn call_of(e: WikiEvent) -> Option<SinkCall> {
    match e {
        WikiEvent::ClaimUpserted { claim_id } => Some(SinkCall::ClaimEvent(claim_id)),
        WikiEvent::ClaimSuperseded { old, new } => Some(SinkCall::Superseded(old, new)),
        _ => None,
    }
}

/// The replay plan of decoded outbox lines: the sink calls of the lines
/// before the first one that did not decode, in order, and the error that
/// line stops the replay with (`invalid event json: <reason>`), if any.
pub open spec fn outbox_plan(es: Seq<Result<WikiEvent, String>>) -> (Seq<SinkCall>, Option<Seq<char>>)
    decreases es.len(),
{
    if es.len() == 0 {
        (seq![], None)
    } else {
        let p = outbox_plan(es.drop_last());
        if p.1 is Some {
            p
        } else {
            match es.last() {
                Err(reason) => (p.0, Some("invalid event json: "@ + reason@)),
                Ok(e) => match call_of(e) {
                    Some(c) => (p.0.push(c), None),
                    None => p,
                },
            }
        }
    }
}

/// The replay plan of decoded outbox lines.
pub fn outbox_calls(events: &Vec<Result<WikiEvent, String>>) -> (r: (Vec<SinkCall>, Option<String>))
    ensures
        r.0@ == outbox_plan(events@).0,
        crate::agent_tools::opt_view(r.1) == outbox_plan(events@).1,
{
    let mut calls: Vec<SinkCall> = Vec::new();
    let mut i: usize = 0;
    while i < events.len()
        invariant
            i <= events.len(),
            outbox_plan(events@.take(i as int)) == (calls@, None::<Seq<char>>),
        decreases events.len() - i,
    {
        assert(events@.take(i + 1).drop_last() =~= events@.take(i as int));
        match &events[i] {
            Err(reason) => {
                let mut v = chars_of("invalid event json: ");
                extend_str(&mut v, reason.as_str());
                let m = string_of(&v);
                proof {
                    lemma_plan_stops(events@, i as int + 1);
                }
                return (calls, Some(m));
            },
            Ok(WikiEvent::ClaimUpserted { claim_id }) => {
                calls.push(SinkCall::ClaimEvent(*claim_id));
            },
            Ok(WikiEvent::ClaimSuperseded { old, new }) => {
                calls.push(SinkCall::Superseded(*old, *new));
            },
            Ok(_) => {},
        }
        i = i + 1;
    }
    assert(events@.take(events.len() as int) =~= events@);
    (calls, None)
}

/// Once a prefix of the lines has stopped the plan, longer prefixes keep
/// that plan.
proof fn lemma_plan_stops(es: Seq<Result<WikiEvent, String>>, n: int)
    requires
        0 <= n <= es.len(),
        outbox_plan(es.take(n)).1 is Some,
    ensures
        outbox_plan(es) == outbox_plan(es.take(n)),
    decreases es.len() - n,
{
    if n < es.len() {
        assert(es.take(n + 1).drop_last() =~= es.take(n));
        lemma_plan_stops(es, n + 1);
    } else {
        assert(es.take(n) =~= es);
    }
}

/// Makes one planned call on the sink.
fn dispatch<S: MempalaceWikiSink>(sink: &S, call: &SinkCall) -> (r: Result<(), MempalaceError>)
    ensures
        sink.sink_answers(*call, r),
{
    match call {
        SinkCall::ClaimEvent(id) => sink.on_claim_event(*id),
        SinkCall::Superseded(old, new) => sink.on_claim_superseded(*old, *new),
    }
}

/// Replays decoded outbox lines into a sink: exactly the calls of
/// [`outbox_plan`], in order, until the sink fails, whose error is then
/// returned unchanged. When every call succeeds, a line that did not decode
/// gives `invalid event json: <reason>`, and otherwise the result is the
/// number of calls made.
pub fn consume_outbox_events<S: MempalaceWikiSink>(
    sink: &S,
    events: &Vec<Result<WikiEvent, String>>,
) -> (r: Result<usize, MempalaceError>)
    ensures
        ({
            let cs = outbox_plan(events@).0;
            let bad = outbox_plan(events@).1;
            match r {
                Ok(n) => {
                    &&& bad is None
                    &&& n == cs.len()
                    &&& forall|k: int| 0 <= k < cs.len() ==> sink.sink_answers(#[trigger] cs[k], Ok(()))
                },
                Err(e) => {
                    ||| {
                        &&& forall|k: int| 0 <= k < cs.len() ==> sink.sink_answers(#[trigger] cs[k], Ok(()))
                        &&& e matches MempalaceError::Backend(m) && bad == Some(m@)
                    }
                    ||| exists|k: int|
                        {
                            &&& 0 <= k < cs.len()
                            &&& forall|j: int| 0 <= j < k ==> sink.sink_answers(#[trigger] cs[j], Ok(()))
                            &&& sink.sink_answers(#[trigger] cs[k], Err(e))
                        }
                },
            }
        }),
{
    let (calls, bad) = outbox_calls(events);
    let mut k: usize = 0;
    while k < calls.len()
        invariant
            k <= calls.len(),
            calls@ == outbox_plan(events@).0,
            forall|j: int| 0 <= j < k ==> sink.sink_answers(#[trigger] calls@[j], Ok(())),
        decreases calls.len() - k,
    {
        let res = dispatch(sink, &calls[k]);
        if let Err(e) = res {
            assert(sink.sink_answers(calls@[k as int], Err(e)));
            return Err(e);
        }
        assert(res is Ok);
        let ghost unit: () = res->Ok_0;
        assert(res == Ok::<(), MempalaceError>(unit));
        k = k + 1;
    }
    match bad {
        Some(m) => Err(MempalaceError::Backend(m)),
        None => Ok(calls.len()),
    }
}

/// The replay's count is the number of claim events forwarded: with every
/// line decoded, the plan holds one call per forwarded event.
pub proof fn lemma_plan_counts_forwarded(es: Seq<Result<WikiEvent, String>>)
    requires
        forall|i: int| 0 <= i < es.len() ==> #[trigger] es[i] is Ok,
    ensures
        outbox_plan(es).1 is None,
        outbox_plan(es).0.len() == forwarded_count(es),
    decreases es.len(),
{
    if es.len() > 0 {
        assert forall|i: int| 0 <= i < es.drop_last().len() implies #[trigger] es.drop_last()[i] is Ok by {
            assert(es.drop_last()[i] == es[i]);
        }
        lemma_plan_counts_forwarded(es.drop_last());
        assert(es.last() == es[es.len() - 1]);
    }
}

} // verus!
