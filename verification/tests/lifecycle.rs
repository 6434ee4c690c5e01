use postoffice::lifecycle::{LifeCycleAction, LifeCycleHandler, LifeCycleMessage};

fn ready(idx: usize) -> LifeCycleMessage {
    LifeCycleMessage::Ready { idx }
}

#[test]
fn all_ready_is_signalled_once() {
    let mut handler = LifeCycleHandler::start(vec![0, 1, 2]);
    assert!(!handler.is_all_ready());
    assert_eq!(handler.handle(&ready(1)), LifeCycleAction::Continue);
    assert_eq!(handler.handle(&ready(0)), LifeCycleAction::Continue);
    assert_eq!(handler.handle(&ready(1)), LifeCycleAction::Continue);
    assert!(!handler.is_all_ready());
    assert_eq!(handler.handle(&ready(2)), LifeCycleAction::SignalAllReady);
    assert!(handler.is_all_ready());
    assert_eq!(handler.handle(&ready(2)), LifeCycleAction::Continue);
    assert_eq!(handler.handle(&ready(0)), LifeCycleAction::Continue);
}

#[test]
fn failures_and_disconnections_change_nothing() {
    let mut handler = LifeCycleHandler::start(vec![0, 1]);
    assert_eq!(
        handler.handle(&LifeCycleMessage::Disconnected { idx: 0, err: "gone".to_string() }),
        LifeCycleAction::Continue
    );
    assert_eq!(
        handler.handle(&LifeCycleMessage::Failed { idx: 1, err: "no".to_string() }),
        LifeCycleAction::Continue
    );
    assert!(!handler.is_all_ready());
    assert_eq!(handler.handle(&ready(0)), LifeCycleAction::Continue);
    assert_eq!(handler.handle(&ready(1)), LifeCycleAction::SignalAllReady);
}

#[test]
fn an_exit_ends_the_process_with_status_one() {
    let mut handler = LifeCycleHandler::start(vec![0]);
    assert_eq!(
        handler.handle(&LifeCycleMessage::Exited { idx: 0, err: "bind".to_string() }),
        LifeCycleAction::Exit { status: 1 }
    );
    assert!(!handler.is_all_ready());
    assert_eq!(handler.handle(&ready(0)), LifeCycleAction::SignalAllReady);
    assert_eq!(
        handler.handle(&LifeCycleMessage::Exited { idx: 5, err: "x".to_string() }),
        LifeCycleAction::Exit { status: 1 }
    );
}

#[test]
fn unknown_and_repeated_connectors() {
    let mut handler = LifeCycleHandler::start(vec![3, 3, 4]);
    assert_eq!(handler.handle(&ready(9)), LifeCycleAction::Continue);
    assert_eq!(handler.handle(&ready(3)), LifeCycleAction::Continue);
    assert_eq!(handler.handle(&ready(4)), LifeCycleAction::SignalAllReady);
    let mut none = LifeCycleHandler::start(vec![]);
    assert!(none.is_all_ready());
    assert_eq!(
        none.handle(&LifeCycleMessage::Failed { idx: 0, err: String::new() }),
        LifeCycleAction::Continue
    );
    assert_eq!(none.handle(&ready(0)), LifeCycleAction::SignalAllReady);
    assert_eq!(none.handle(&ready(1)), LifeCycleAction::Continue);
}
