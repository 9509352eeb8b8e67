use opencode_desktop::signals::InitStep;
use opencode_desktop::signals::OnceSignal;
use opencode_desktop::signals::ServerReadyData;
use opencode_desktop::signals::SharedStatus;
use opencode_desktop::signals::StepChannel;
use opencode_desktop::signals::subscriber_continues;

#[test]
fn multi_waiter_memoization() {
    let mut status = SharedStatus::new();

    // Five concurrent waiters: only the first triggers the work.
    let mut work_invocations = 0u32;
    for _ in 0..5 {
        if status.begin_work() {
            work_invocations += 1;
        }
    }
    assert_eq!(work_invocations, 1);

    let ready = ServerReadyData {
        url: "http://127.0.0.1:4096".to_string(),
        password: Some("pw".to_string()),
    };
    status.publish(Ok(ready.duplicate()));
    // A competing later computation cannot replace the first result.
    status.publish(Err("too late".to_string()));

    for _ in 0..5 {
        match status.peek() {
            Some(Ok(seen)) => assert_eq!(*seen, ready),
            other => panic!("expected the memoized Ok result, got {:?}", other),
        }
    }
}

#[test]
fn late_subscriber_catch_up() {
    let mut steps = StepChannel::new();
    steps.advance(InitStep::ServerWaiting);
    steps.advance(InitStep::SqliteWaiting);
    steps.advance(InitStep::Done);

    // A subscriber joining only now immediately observes Done...
    assert_eq!(steps.subscribe(), InitStep::Done);
    // ...and nothing else: it unsubscribes right away.
    assert!(!subscriber_continues(InitStep::Done));
}

#[test]
fn steps_never_move_backwards() {
    let mut steps = StepChannel::new();
    steps.advance(InitStep::SqliteWaiting);
    steps.advance(InitStep::ServerWaiting);
    assert_eq!(steps.subscribe(), InitStep::SqliteWaiting);

    steps.advance(InitStep::Done);
    steps.advance(InitStep::SqliteWaiting);
    assert_eq!(steps.subscribe(), InitStep::Done);
}

#[test]
fn subscriber_keeps_listening_before_done() {
    assert!(subscriber_continues(InitStep::ServerWaiting));
    assert!(subscriber_continues(InitStep::SqliteWaiting));
}

#[test]
fn once_signal_fires_once_for_all_observers() {
    let mut signal = OnceSignal::new();
    assert!(!signal.observed());
    signal.fire();
    signal.fire();
    assert!(signal.observed());
    assert!(signal.observed());
}
