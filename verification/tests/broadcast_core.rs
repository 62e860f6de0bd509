use design_patterns::broadcast::BroadcastCore;
use design_patterns::listener::RecordingListener;
use design_patterns::mailbox::ReceiveOutcome;
use design_patterns::message::Message;
use design_patterns::registry::{SubscribeError, Token};

fn msg(s: &str) -> Message {
    Message::new(s.as_bytes().to_vec())
}

#[test]
fn delivery_follows_registration_order() {
    let mut core: BroadcastCore<RecordingListener> = BroadcastCore::new();
    let t1 = core.subscribe_callback(RecordingListener::new()).unwrap();
    let t2 = core.subscribe_callback(RecordingListener::new()).unwrap();
    let report = core.publish(&msg("hello"));
    assert_eq!(report.delivered.len(), 2);
    assert!(report.delivered[0] == t1);
    assert!(report.delivered[1] == t2);
    assert!(t1.value() < t2.value());
    assert_eq!(report.failed.len(), 0);
    assert_eq!(report.disconnected.len(), 0);
    let l1 = core.callback_state(t1).unwrap();
    assert_eq!(l1.received_count(), 1);
    assert_eq!(l1.received_at(0).payload().as_slice(), b"hello");
    let l2 = core.callback_state(t2).unwrap();
    assert_eq!(l2.received_count(), 1);
    assert_eq!(l2.received_at(0).payload().as_slice(), b"hello");
}

#[test]
fn no_delivery_after_unsubscribe() {
    let mut core: BroadcastCore<RecordingListener> = BroadcastCore::new();
    let t1 = core.subscribe_callback(RecordingListener::new()).unwrap();
    let t2 = core.subscribe_callback(RecordingListener::new()).unwrap();
    assert!(core.unsubscribe(t1));
    let report = core.publish(&msg("bye"));
    assert_eq!(report.delivered.len(), 1);
    assert!(report.delivered[0] == t2);
    assert!(core.callback_state(t1).is_none());
    let l2 = core.callback_state(t2).unwrap();
    assert_eq!(l2.received_count(), 1);
    assert_eq!(l2.received_at(0).payload().as_slice(), b"bye");
}

#[test]
fn at_most_once_per_publish() {
    let mut core: BroadcastCore<RecordingListener> = BroadcastCore::new();
    let mut tokens: Vec<Token> = Vec::new();
    tokens.push(core.subscribe_callback(RecordingListener::new()).unwrap());
    tokens.push(core.subscribe_callback(RecordingListener::failing_on(b"x".to_vec())).unwrap());
    let (tm, _h) = core.subscribe_mailbox(1).unwrap();
    tokens.push(tm);
    let report = core.publish(&msg("x"));
    let mut seen: Vec<u64> = Vec::new();
    for t in report
        .delivered
        .iter()
        .chain(report.failed.iter())
        .chain(report.disconnected.iter())
    {
        assert!(!seen.contains(&t.value()), "token reported twice");
        seen.push(t.value());
    }
    assert_eq!(seen.len(), 3);
    for t in &tokens {
        assert!(seen.contains(&t.value()));
    }
    // every callback log holds the message at most once
    for t in &tokens {
        if let Some(l) = core.callback_state(*t) {
            assert!(l.received_count() <= 1);
        }
    }
}

#[test]
fn mailbox_backpressure_keeps_subscriber() {
    let mut core: BroadcastCore<RecordingListener> = BroadcastCore::new();
    let (t, h) = core.subscribe_mailbox(1).unwrap();
    let r1 = core.publish(&msg("a"));
    assert_eq!(r1.delivered.len(), 1);
    assert!(r1.delivered[0] == t);
    let r2 = core.publish(&msg("b"));
    assert_eq!(r2.failed.len(), 1);
    assert!(r2.failed[0] == t);
    assert_eq!(r2.disconnected.len(), 0);
    assert!(core.contains(t), "a full mailbox is not a disconnect");
    // the queue still holds only "a"
    match h.receive(&mut core) {
        ReceiveOutcome::Received(m) => assert_eq!(m.payload().as_slice(), b"a"),
        _ => panic!("expected the first message"),
    }
    assert!(matches!(h.receive(&mut core), ReceiveOutcome::TimedOut));
}

#[test]
fn closed_mailbox_is_pruned() {
    let mut core: BroadcastCore<RecordingListener> = BroadcastCore::new();
    let (t, h) = core.subscribe_mailbox(4).unwrap();
    h.close(&mut core);
    let r1 = core.publish(&msg("x"));
    assert_eq!(r1.disconnected.len(), 1);
    assert!(r1.disconnected[0] == t);
    assert!(!core.contains(t));
    let r2 = core.publish(&msg("y"));
    assert!(!r2.delivered.iter().any(|x| *x == t));
    assert!(!r2.failed.iter().any(|x| *x == t));
    assert!(!r2.disconnected.iter().any(|x| *x == t));
}

#[test]
fn unsubscribe_is_idempotent() {
    let mut core: BroadcastCore<RecordingListener> = BroadcastCore::new();
    let t = core.subscribe_callback(RecordingListener::new()).unwrap();
    assert!(core.unsubscribe(t));
    assert!(!core.unsubscribe(t));
}

#[test]
fn callback_failure_is_isolated() {
    let mut core: BroadcastCore<RecordingListener> = BroadcastCore::new();
    let t1 = core.subscribe_callback(RecordingListener::failing_on(b"x".to_vec())).unwrap();
    let t2 = core.subscribe_callback(RecordingListener::new()).unwrap();
    let report = core.publish(&msg("x"));
    assert_eq!(report.failed.len(), 1);
    assert!(report.failed[0] == t1);
    assert_eq!(report.delivered.len(), 1);
    assert!(report.delivered[0] == t2);
    let l2 = core.callback_state(t2).unwrap();
    assert_eq!(l2.received_at(0).payload().as_slice(), b"x");
    let l1 = core.callback_state(t1).unwrap();
    assert_eq!(l1.received_count(), 0);
    // L1 stays active: the next publish reaches it
    let r2 = core.publish(&msg("y"));
    assert_eq!(r2.delivered.len(), 2);
    let l1 = core.callback_state(t1).unwrap();
    assert_eq!(l1.received_at(0).payload().as_slice(), b"y");
}

#[test]
fn callback_can_request_disconnect() {
    let mut core: BroadcastCore<RecordingListener> = BroadcastCore::new();
    let t = core.subscribe_callback(RecordingListener::leaving_on(b"quit".to_vec())).unwrap();
    let report = core.publish(&msg("quit"));
    assert_eq!(report.disconnected.len(), 1);
    assert!(report.disconnected[0] == t);
    assert!(!core.contains(t));
}

#[test]
fn zero_capacity_is_a_caller_error() {
    let mut core: BroadcastCore<RecordingListener> = BroadcastCore::new();
    match core.subscribe_mailbox(0) {
        Err(SubscribeError::InvalidCapacity) => {},
        _ => panic!("a zero-capacity mailbox must be refused"),
    }
    assert_eq!(core.subscriber_count(), 0);
}

#[test]
fn report_counts_match_lists() {
    let mut core: BroadcastCore<RecordingListener> = BroadcastCore::new();
    core.subscribe_callback(RecordingListener::new()).unwrap();
    core.subscribe_callback(RecordingListener::failing_on(b"m".to_vec())).unwrap();
    let (_, h) = core.subscribe_mailbox(2).unwrap();
    h.close(&mut core);
    let report = core.publish(&msg("m"));
    assert_eq!(report.delivered_count(), 1);
    assert_eq!(report.failed_count(), 1);
    assert_eq!(report.disconnected_count(), 1);
}

#[test]
fn snapshot_is_immune_to_later_mutation() {
    let mut core: BroadcastCore<RecordingListener> = BroadcastCore::new();
    let t1 = core.subscribe_callback(RecordingListener::new()).unwrap();
    let t2 = core.subscribe_callback(RecordingListener::new()).unwrap();
    let snap = core.snapshot();
    assert!(core.unsubscribe(t1));
    core.subscribe_callback(RecordingListener::new()).unwrap();
    assert_eq!(snap.len(), 2);
    assert!(snap[0].token == t1);
    assert!(snap[1].token == t2);
    assert!(!snap[0].is_mailbox);
}
