use llm_wiki::mempalace::{
    consume_outbox_events, outbox_calls, outbox_lines, ClaimSnapshot, SinkCall, MempalaceError, MempalaceWikiSink,
    NoopMempalace,
};
use llm_wiki::wiki_core::{Scope, WikiEvent};
use std::sync::atomic::{AtomicUsize, Ordering};
use std::sync::Arc;

#[derive(Clone, Default)]
struct CountingSink {
    upserted: Arc<AtomicUsize>,
    superseded: Arc<AtomicUsize>,
}

impl MempalaceWikiSink for CountingSink {
    fn on_claim_upserted(&self, _claim: &ClaimSnapshot) -> Result<(), MempalaceError> {
        Ok(())
    }

    fn on_claim_event(&self, _claim_id: u128) -> Result<(), MempalaceError> {
        self.upserted.fetch_add(1, Ordering::SeqCst);
        Ok(())
    }

    fn on_claim_superseded(&self, _old: u128, _new: u128) -> Result<(), MempalaceError> {
        self.superseded.fetch_add(1, Ordering::SeqCst);
        Ok(())
    }

    fn on_source_linked(&self, _source_id: u128, _claim_id: u128) -> Result<(), MempalaceError> {
        Ok(())
    }

    fn scope_filter(&self, _scope: &Scope) -> bool {
        true
    }
}

struct FailingSink;

impl MempalaceWikiSink for FailingSink {
    fn on_claim_upserted(&self, _claim: &ClaimSnapshot) -> Result<(), MempalaceError> {
        Ok(())
    }

    fn on_claim_event(&self, _claim_id: u128) -> Result<(), MempalaceError> {
        Err(MempalaceError::Backend("down".to_string()))
    }

    fn on_claim_superseded(&self, _old: u128, _new: u128) -> Result<(), MempalaceError> {
        Ok(())
    }

    fn on_source_linked(&self, _source_id: u128, _claim_id: u128) -> Result<(), MempalaceError> {
        Ok(())
    }

    fn scope_filter(&self, _scope: &Scope) -> bool {
        false
    }
}

#[test]
fn consumes_ndjson_and_dispatches_claim_events() {
    let sink = CountingSink::default();
    let a: u128 = 0x1111_2222_3333_4444_5555_6666_7777_8888;
    let b: u128 = 0x9999_aaaa_bbbb_cccc_dddd_eeee_ffff_0000;
    let events = vec![
        Ok(WikiEvent::ClaimUpserted { claim_id: a }),
        Ok(WikiEvent::ClaimSuperseded { old: a, new: b }),
    ];
    let n = consume_outbox_events(&sink, &events).unwrap();
    assert_eq!(n, 2);
    assert_eq!(sink.upserted.load(Ordering::SeqCst), 1);
    assert_eq!(sink.superseded.load(Ordering::SeqCst), 1);
}

#[test]
fn other_events_are_skipped_and_not_counted() {
    let sink = CountingSink::default();
    let events = vec![Ok(WikiEvent::LintRunFinished { findings: 3 }), Ok(WikiEvent::ClaimUpserted { claim_id: 7 }), Ok(WikiEvent::LintRunFinished { findings: 3 })];
    assert_eq!(consume_outbox_events(&sink, &events).unwrap(), 1);
    assert_eq!(consume_outbox_events(&NoopMempalace, &Vec::new()).unwrap(), 0);
}

#[test]
fn undecodable_line_stops_the_replay_after_earlier_events() {
    let sink = CountingSink::default();
    let events = vec![
        Ok(WikiEvent::ClaimUpserted { claim_id: 1 }),
        Err("expected value at line 1 column 1".to_string()),
        Ok(WikiEvent::ClaimUpserted { claim_id: 2 }),
    ];
    let err = consume_outbox_events(&sink, &events).unwrap_err();
    assert_eq!(
        err,
        MempalaceError::Backend("invalid event json: expected value at line 1 column 1".to_string())
    );
    assert_eq!(sink.upserted.load(Ordering::SeqCst), 1);
}

#[test]
fn sink_failure_is_returned() {
    let events = vec![Ok(WikiEvent::ClaimUpserted { claim_id: 1 })];
    let err = consume_outbox_events(&FailingSink, &events).unwrap_err();
    assert_eq!(err.to_string(), "external memory backend error: down");
    assert!(!FailingSink.scope_filter(&Scope::Shared { team_id: "t".to_string() }));
}

#[test]
fn outbox_lines_are_trimmed_and_blank_ones_dropped() {
    assert_eq!(
        outbox_lines("  {\"a\":1}  \r\n\n   \n{\"b\":2}\n"),
        vec!["{\"a\":1}".to_string(), "{\"b\":2}".to_string()]
    );
    assert!(outbox_lines("").is_empty());
}

#[test]
fn noop_sink_accepts_everything() {
    let s = NoopMempalace;
    assert!(s.on_claim_event(1).is_ok());
    assert!(s.on_claim_superseded(1, 2).is_ok());
    assert!(s.on_source_linked(1, 2).is_ok());
    assert!(s
        .on_claim_upserted(&ClaimSnapshot { id: 1, text: "x".to_string(), stale: false })
        .is_ok());
    assert!(s.scope_filter(&Scope::Private { agent_id: "a".to_string() }));
}

#[test]
fn outbox_plan_lists_calls_up_to_the_first_bad_line() {
    let events = vec![
        Ok(WikiEvent::ClaimUpserted { claim_id: 4 }),
        Ok(WikiEvent::LintRunFinished { findings: 1 }),
        Ok(WikiEvent::ClaimSuperseded { old: 4, new: 5 }),
        Err("eof".to_string()),
        Ok(WikiEvent::ClaimUpserted { claim_id: 6 }),
    ];
    let (calls, bad) = outbox_calls(&events);
    assert_eq!(calls, vec![SinkCall::ClaimEvent(4), SinkCall::Superseded(4, 5)]);
    assert_eq!(bad, Some("invalid event json: eof".to_string()));
    let (all, none) = outbox_calls(&events[..3].to_vec());
    assert_eq!(all.len(), 2);
    assert_eq!(none, None);
}
