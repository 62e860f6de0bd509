use design_patterns::mailbox::{Mailbox, ReceiveOutcome, SendOutcome};
use design_patterns::message::Message;
use design_patterns::message_passing::{ChannelSubject, Subject};
use design_patterns::observer::ConcreteObserver;
use design_patterns::registry::{Registry, SubscriberKind, Token};

fn msg(s: &str) -> Message {
    Message::new(s.as_bytes().to_vec())
}

#[test]
fn mailbox_is_fifo_and_bounded() {
    let mut mb = Mailbox::new(2);
    assert!(matches!(mb.send(&msg("one")), SendOutcome::Sent));
    assert!(matches!(mb.send(&msg("two")), SendOutcome::Sent));
    assert!(matches!(mb.send(&msg("three")), SendOutcome::Full));
    assert_eq!(mb.len(), 2);
    assert_eq!(mb.capacity(), 2);
    match mb.receive() {
        ReceiveOutcome::Received(m) => assert_eq!(m.payload().as_slice(), b"one"),
        _ => panic!("expected the oldest message"),
    }
    match mb.receive() {
        ReceiveOutcome::Received(m) => assert_eq!(m.payload().as_slice(), b"two"),
        _ => panic!("expected the second message"),
    }
    assert!(matches!(mb.receive(), ReceiveOutcome::TimedOut));
}

#[test]
fn mailbox_drains_before_reporting_closed() {
    let mut mb = Mailbox::new(3);
    assert!(matches!(mb.send(&msg("kept")), SendOutcome::Sent));
    mb.close();
    assert!(mb.is_closed());
    assert!(matches!(mb.send(&msg("late")), SendOutcome::Closed));
    match mb.receive() {
        ReceiveOutcome::Received(m) => assert_eq!(m.payload().as_slice(), b"kept"),
        _ => panic!("a closed mailbox still yields buffered messages"),
    }
    assert!(matches!(mb.receive(), ReceiveOutcome::Closed));
}

#[test]
fn registry_mints_fresh_ordered_tokens() {
    let mut reg: Registry<ConcreteObserver> = Registry::new();
    let t0 = reg.subscribe(SubscriberKind::Callback(ConcreteObserver::new("a"))).unwrap();
    let t1 = reg.subscribe(SubscriberKind::Callback(ConcreteObserver::new("b"))).unwrap();
    let t2 = reg.subscribe(SubscriberKind::Callback(ConcreteObserver::new("c"))).unwrap();
    assert_eq!(t0.value(), 0);
    assert_eq!(t1.value(), 1);
    assert_eq!(t2.value(), 2);
    assert_eq!(reg.len(), 3);
    assert!(reg.unsubscribe(t1));
    assert!(!reg.contains(t1));
    let snap = reg.snapshot();
    assert_eq!(snap.len(), 2);
    assert!(snap[0].token == t0);
    assert!(snap[1].token == t2);
    // a removed token is never handed out again
    let t3 = reg.subscribe(SubscriberKind::Callback(ConcreteObserver::new("d"))).unwrap();
    assert_eq!(t3.value(), 3);
}

#[test]
fn registry_purge_ignores_unknown_tokens() {
    let mut reg: Registry<ConcreteObserver> = Registry::new();
    let t0 = reg.subscribe(SubscriberKind::Callback(ConcreteObserver::new("a"))).unwrap();
    let t1 = reg.subscribe(SubscriberKind::Callback(ConcreteObserver::new("b"))).unwrap();
    assert!(reg.unsubscribe(t0));
    let batch: Vec<Token> = vec![t0, t1];
    reg.purge(&batch);
    assert_eq!(reg.len(), 0);
    reg.purge(&batch);
    assert_eq!(reg.len(), 0);
}

#[test]
fn subject_notifies_only_current_subscribers() {
    let mut subject: Subject<ConcreteObserver> = Subject::new();
    let t1 = subject.subscribe(ConcreteObserver::new("one")).unwrap();
    let t2 = subject.subscribe(ConcreteObserver::new("two")).unwrap();
    subject.notify("first");
    assert!(subject.unsubscribe(t1));
    assert!(!subject.unsubscribe(t1));
    subject.notify("second");
    assert!(subject.observer_state(t1).is_none());
    let two = subject.observer_state(t2).unwrap();
    assert_eq!(two.received_count(), 2);
    assert_eq!(two.received_at(0).as_str(), "first");
    assert_eq!(two.received_at(1).as_str(), "second");
}

#[test]
fn channel_subject_drops_closed_subscribers() {
    let mut subject = ChannelSubject::new();
    let first = subject.subscribe(8);
    let second = subject.subscribe(8);
    assert_eq!(first, 0);
    assert_eq!(second, 1);
    subject.notify(&msg("news"));
    subject.close_at(0);
    subject.notify(&msg("late"));
    // the closed subscriber was silently dropped, the live one kept both
    assert_eq!(subject.subscriber_count(), 1);
    match subject.receive_from(0) {
        ReceiveOutcome::Received(m) => assert_eq!(m.payload().as_slice(), b"news"),
        _ => panic!("expected the first fan-out"),
    }
    match subject.receive_from(0) {
        ReceiveOutcome::Received(m) => assert_eq!(m.payload().as_slice(), b"late"),
        _ => panic!("expected the second fan-out"),
    }
}

#[test]
fn message_clone_preserves_payload() {
    let m = msg("payload");
    let c = m.clone();
    assert_eq!(c.payload().as_slice(), b"payload");
}
