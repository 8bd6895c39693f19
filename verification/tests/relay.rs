use hyper_uppercut::ack::{classify_ack, AckVerdict};
use hyper_uppercut::nostr::Event;
use hyper_uppercut::relay::{event_frame, event_json, PublishOutcome, RelayPool};

fn sample_event() -> Event {
    Event {
        id: "aa".repeat(32),
        pubkey: "bb".repeat(32),
        created_at: 1700000000,
        kind: 1,
        tags: vec![vec!["e".to_string(), "1".to_string()]],
        content: "note \"quoted\"".to_string(),
        sig: "cc".repeat(64),
    }
}

#[test]
fn event_json_has_documented_key_order() {
    let event = sample_event();
    let expected = format!(
        "{{\"id\":\"{}\",\"pubkey\":\"{}\",\"created_at\":1700000000,\"kind\":1,\"tags\":[[\"e\",\"1\"]],\"content\":\"note \\\"quoted\\\"\",\"sig\":\"{}\"}}",
        "aa".repeat(32),
        "bb".repeat(32),
        "cc".repeat(64),
    );
    assert_eq!(event_json(&event), expected);
}

#[test]
fn event_frame_wraps_the_object() {
    let event = sample_event();
    let frame = event_frame(&event);
    assert_eq!(frame, format!("[\"EVENT\",{}]", event_json(&event)));
}

#[test]
fn accepting_ack_is_accepted() {
    let verdict = classify_ack("[\"OK\",\"abc\",true,\"saved\"]");
    assert!(matches!(verdict, AckVerdict::Accepted));
}

#[test]
fn refusing_ack_carries_the_reason() {
    let verdict = classify_ack("[\"OK\",\"abc\",false,\"blocked: spam\"]");
    match verdict {
        AckVerdict::Rejected(reason) => assert_eq!(reason, "blocked: spam"),
        _ => panic!("expected a rejection"),
    }
}

#[test]
fn whitespace_between_tokens_is_allowed() {
    let verdict = classify_ack(" [ \"OK\" ,\t\"abc\" ,\n false , \"nope\" ]  ");
    match verdict {
        AckVerdict::Rejected(reason) => assert_eq!(reason, "nope"),
        _ => panic!("expected a rejection"),
    }
}

#[test]
fn escapes_in_the_reason_are_decoded() {
    let verdict = classify_ack("[\"OK\",\"abc\",false,\"say \\\"no\\\"\\nplease\\t\\\\\"]");
    match verdict {
        AckVerdict::Rejected(reason) => assert_eq!(reason, "say \"no\"\nplease\t\\"),
        _ => panic!("expected a rejection"),
    }
}

#[test]
fn unicode_escapes_are_kept_verbatim() {
    let verdict = classify_ack("[\"OK\",\"abc\",false,\"bad \\u0041\"]");
    match verdict {
        AckVerdict::Rejected(reason) => assert_eq!(reason, "bad \\u0041"),
        _ => panic!("expected a rejection"),
    }
}

#[test]
fn notices_are_not_acknowledgments() {
    assert!(matches!(
        classify_ack("[\"NOTICE\",\"slow down\"]"),
        AckVerdict::NotAnAck
    ));
}

#[test]
fn malformed_frames_are_not_acknowledgments() {
    assert!(matches!(classify_ack("not json at all"), AckVerdict::NotAnAck));
    assert!(matches!(classify_ack(""), AckVerdict::NotAnAck));
    assert!(matches!(classify_ack("[\"OK\",\"abc\",false]"), AckVerdict::NotAnAck));
    assert!(matches!(
        classify_ack("[\"OK\",\"abc\",maybe,\"x\"]"),
        AckVerdict::NotAnAck
    ));
    assert!(matches!(
        classify_ack("[\"OK\",\"abc\",true,\"x\"] trailing"),
        AckVerdict::NotAnAck
    ));
    assert!(matches!(
        classify_ack("[\"OK\",\"abc\",true,\"unterminated]"),
        AckVerdict::NotAnAck
    ));
    // A fifth element makes it another shape.
    assert!(matches!(
        classify_ack("[\"OK\",\"abc\",true,\"x\",\"extra\"]"),
        AckVerdict::NotAnAck
    ));
    // A raw control character may not stand unescaped inside a string.
    assert!(matches!(
        classify_ack("[\"OK\",\"abc\",false,\"bad\u{1}reason\"]"),
        AckVerdict::NotAnAck
    ));
    // An unknown escape is not part of the grammar.
    assert!(matches!(
        classify_ack("[\"OK\",\"abc\",false,\"bad \\q\"]"),
        AckVerdict::NotAnAck
    ));
}

fn queued_event(content: &str) -> Event {
    Event {
        id: "11".repeat(32),
        pubkey: "22".repeat(32),
        created_at: 1,
        kind: 1,
        tags: vec![],
        content: content.to_string(),
        sig: "33".repeat(64),
    }
}

#[test]
fn fan_out_attempts_every_relay_despite_failures() {
    let relays = vec![
        "wss://relay-a.example".to_string(),
        "wss://relay-b.example".to_string(),
        "wss://relay-c.example".to_string(),
    ];
    let mut pool = RelayPool::new(relays.clone());
    let event = queued_event("fan out");
    pool.add_to_outbox(event.clone());

    let mut cycle = pool.start_drain();
    let mut attempted_urls: Vec<String> = Vec::new();
    // Relay A accepts, relay B refuses, relay C never answers; the walk
    // must reach all three.
    let replies = [
        Some("[\"OK\",\"11\",true,\"saved\"]"),
        Some("[\"OK\",\"11\",false,\"blocked\"]"),
        None,
    ];
    let mut reply_index = 0;
    while let Some((url, frame)) = cycle.current_attempt() {
        assert_eq!(frame, event_frame(&event));
        attempted_urls.push(url);
        let outcome = match replies[reply_index] {
            Some(text) => match classify_ack(text) {
                AckVerdict::Accepted => PublishOutcome::Delivered,
                AckVerdict::Rejected(reason) => PublishOutcome::Rejected(reason),
                AckVerdict::NotAnAck => PublishOutcome::Delivered,
            },
            None => PublishOutcome::ConnectFailed,
        };
        reply_index += 1;
        cycle.record_outcome(outcome);
    }
    assert!(cycle.is_done());
    assert_eq!(attempted_urls, relays);

    let outcomes = cycle.into_outcomes();
    assert_eq!(outcomes.len(), 3);
    assert!(matches!(outcomes[0], PublishOutcome::Delivered));
    match &outcomes[1] {
        PublishOutcome::Rejected(reason) => assert_eq!(reason, "blocked"),
        _ => panic!("expected a rejection"),
    }
    assert!(matches!(outcomes[2], PublishOutcome::ConnectFailed));
}

#[test]
fn event_enqueued_during_drain_lands_in_next_cycle() {
    let mut pool = RelayPool::new(vec!["wss://relay.example".to_string()]);
    let first = queued_event("first");
    let second = queued_event("second");
    pool.add_to_outbox(first.clone());

    let mut cycle = pool.start_drain();
    let mut first_cycle_frames: Vec<String> = Vec::new();
    while let Some((_url, frame)) = cycle.current_attempt() {
        // A producer enqueues while the drain is still running.
        if first_cycle_frames.is_empty() {
            pool.add_to_outbox(second.clone());
        }
        first_cycle_frames.push(frame);
        cycle.record_outcome(PublishOutcome::Delivered);
    }
    assert_eq!(first_cycle_frames, vec![event_frame(&first)]);

    let mut next = pool.start_drain();
    let mut next_cycle_frames: Vec<String> = Vec::new();
    while let Some((_url, frame)) = next.current_attempt() {
        next_cycle_frames.push(frame);
        next.record_outcome(PublishOutcome::Delivered);
    }
    // Exactly one delivery of the late event: in the next cycle, once.
    assert_eq!(next_cycle_frames, vec![event_frame(&second)]);

    let after = pool.start_drain();
    assert!(after.is_done());
}

#[test]
fn draining_an_empty_outbox_is_a_no_op() {
    let mut pool = RelayPool::new(vec!["wss://relay.example".to_string()]);
    let cycle = pool.start_drain();
    assert!(cycle.is_done());
    assert!(cycle.current_attempt().is_none());
    assert_eq!(cycle.outcome_count(), 0);
    assert_eq!(cycle.into_outcomes().len(), 0);
}

#[test]
fn events_drain_in_enqueue_order() {
    let mut pool = RelayPool::new(vec!["wss://relay.example".to_string()]);
    let first = queued_event("first");
    let second = queued_event("second");
    pool.add_to_outbox(first.clone());
    pool.add_to_outbox(second.clone());

    let mut cycle = pool.start_drain();
    let mut frames: Vec<String> = Vec::new();
    while let Some((_url, frame)) = cycle.current_attempt() {
        frames.push(frame);
        cycle.record_outcome(PublishOutcome::ConnectFailed);
    }
    assert_eq!(frames, vec![event_frame(&first), event_frame(&second)]);
}
