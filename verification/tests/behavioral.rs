use design_patterns::chain::{BaseHandler, ConcreteHandlerA, ConcreteHandlerB, HandledBy, Handler};
use design_patterns::command::{Command, Light, RemoteControl, TurnOffCommand, TurnOnCommand};
use design_patterns::mediator::{Component1, Component2, ConcreteMediator, Operation};
use design_patterns::observer::{ConcreteObserver, Observer, Subject};
use design_patterns::strategy::{ConcreteStrategyA, ConcreteStrategyB, Context};

#[test]
fn remote_control_replays_commands() {
    let mut light = Light::new();
    assert!(!light.is_on());
    let mut remote: RemoteControl<TurnOnCommand> = RemoteControl::new();
    remote.press_button(&mut light);
    assert!(!light.is_on(), "an empty remote changes nothing");
    remote.set_command(TurnOnCommand {});
    remote.press_button(&mut light);
    assert!(light.is_on());
    let mut remote_off: RemoteControl<TurnOffCommand> = RemoteControl::new();
    remote_off.set_command(TurnOffCommand {});
    remote_off.press_button(&mut light);
    assert!(!light.is_on());
}

#[test]
fn commands_drive_the_light_directly() {
    let mut light = Light::new();
    TurnOnCommand {}.execute(&mut light);
    assert!(light.is_on());
    TurnOffCommand {}.execute(&mut light);
    assert!(!light.is_on());
}

#[test]
fn observers_are_notified_in_attachment_order() {
    let mut subject: Subject<ConcreteObserver> = Subject::new();
    subject.add_observer(ConcreteObserver::new("Observer 1"));
    subject.add_observer(ConcreteObserver::new("Observer 2"));
    subject.notify_observers("Hello, observers!");
    assert_eq!(subject.observer_count(), 2);
    let first = subject.observer_at(0);
    assert_eq!(first.name().as_str(), "Observer 1");
    assert_eq!(first.received_count(), 1);
    assert_eq!(first.received_at(0).as_str(), "Hello, observers!");
    let second = subject.observer_at(1);
    assert_eq!(second.name().as_str(), "Observer 2");
    assert_eq!(second.received_at(0).as_str(), "Hello, observers!");
}

#[test]
fn observer_update_appends() {
    let mut o = ConcreteObserver::new("solo");
    o.update("one");
    o.update("two");
    assert_eq!(o.received_count(), 2);
    assert_eq!(o.received_at(0).as_str(), "one");
    assert_eq!(o.received_at(1).as_str(), "two");
}

#[test]
fn strategies_tag_their_input() {
    let mut context = Context::new(ConcreteStrategyA {});
    assert_eq!(context.execute_strategy("Hello, World!").as_str(), "ConcreteStrategyA: Hello, World!");
    context.set_strategy(ConcreteStrategyA {});
    assert_eq!(context.execute_strategy("Hello, Rust!").as_str(), "ConcreteStrategyA: Hello, Rust!");
    let context_b = Context::new(ConcreteStrategyB {});
    assert_eq!(context_b.execute_strategy("Hello, Rust!").as_str(), "ConcreteStrategyB: Hello, Rust!");
}

#[test]
fn chain_passes_requests_to_the_right_handler() {
    let mut handler = BaseHandler::new();
    let mut handler_b = ConcreteHandlerB { next: None };
    let handler_a = ConcreteHandlerA { next: None };
    handler_b.set_next(Box::new(Handler::A(handler_a)));
    handler.set_next(Box::new(Handler::B(handler_b)));
    assert!(matches!(handler.handle("A"), Some(HandledBy::HandlerA)));
    assert!(matches!(handler.handle("B"), Some(HandledBy::HandlerB)));
    assert!(matches!(handler.handle("C"), None));
}

#[test]
fn mediator_reacts_to_events() {
    let mut c1 = Component1::new();
    let mut c2 = Component2::new();
    c1.set_mediator(1);
    c2.set_mediator(1);
    c1.do_a();
    let mut mediator = ConcreteMediator::new(c1, c2);
    mediator.notify(Operation::A);
    assert_eq!(mediator.component1().performed_count(), 1);
    assert_eq!(mediator.component2().performed_count(), 1);
    assert!(matches!(mediator.component2().performed_at(0), Operation::C));
    mediator.notify(Operation::D);
    assert_eq!(mediator.component1().performed_count(), 2);
    assert!(matches!(mediator.component1().performed_at(1), Operation::B));
    assert_eq!(mediator.component2().performed_count(), 2);
    assert!(matches!(mediator.component2().performed_at(1), Operation::C));
    mediator.notify(Operation::B);
    assert_eq!(mediator.component1().performed_count(), 2);
    assert_eq!(mediator.component2().performed_count(), 2);
}
