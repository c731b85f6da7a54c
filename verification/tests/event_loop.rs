use sqs_worker::event_loop::{
    react, registered_signals, LoopEvent, LoopState, Reaction, SignalKind, BACKOFF_SECONDS,
};
use sqs_worker::message::QueueError;

#[test]
fn backoff_is_five_seconds() {
    assert_eq!(BACKOFF_SECONDS, 5);
}

#[test]
fn successful_cycle_polls_again() {
    let next = react(LoopState::Running, LoopEvent::PollResult(Ok(())));
    assert_eq!(next, (LoopState::Running, Reaction::PollAgain));
}

#[test]
fn failed_cycle_backs_off() {
    let error = QueueError::Receive("connection reset".to_string());
    let next = react(LoopState::Running, LoopEvent::PollResult(Err(error.clone())));
    assert_eq!(next, (LoopState::Running, Reaction::Backoff { error, seconds: 5 }));
}

#[test]
fn failed_acknowledgment_backs_off() {
    let error = QueueError::Acknowledge("gone".to_string());
    let next = react(LoopState::Running, LoopEvent::PollResult(Err(error.clone())));
    assert_eq!(next, (LoopState::Running, Reaction::Backoff { error, seconds: 5 }));
}

#[test]
fn probe_connection_changes_nothing() {
    let next = react(LoopState::Running, LoopEvent::ProbeConnection);
    assert_eq!(next, (LoopState::Running, Reaction::Ping));
}

#[test]
fn interrupt_quit_and_terminate_shut_down() {
    for kind in [SignalKind::Interrupt, SignalKind::Quit, SignalKind::Terminate] {
        assert!(kind.is_shutdown());
        let next = react(LoopState::Running, LoopEvent::Signal(kind));
        assert_eq!(next, (LoopState::Terminated, Reaction::Exit));
    }
}

#[test]
fn broken_pipe_is_ignored() {
    assert!(!SignalKind::BrokenPipe.is_shutdown());
    let next = react(LoopState::Running, LoopEvent::Signal(SignalKind::BrokenPipe));
    assert_eq!(next, (LoopState::Running, Reaction::Ignore));
}

#[test]
fn terminated_loop_only_exits() {
    let events = vec![
        LoopEvent::PollResult(Ok(())),
        LoopEvent::PollResult(Err(QueueError::Receive("late".to_string()))),
        LoopEvent::ProbeConnection,
        LoopEvent::Signal(SignalKind::BrokenPipe),
        LoopEvent::Signal(SignalKind::Terminate),
    ];
    for event in events {
        assert_eq!(react(LoopState::Terminated, event), (LoopState::Terminated, Reaction::Exit));
    }
}

#[test]
fn registers_shutdown_signals_then_broken_pipe() {
    assert_eq!(
        registered_signals(),
        vec![
            SignalKind::Interrupt,
            SignalKind::Quit,
            SignalKind::Terminate,
            SignalKind::BrokenPipe
        ]
    );
    let shutdown: Vec<SignalKind> =
        registered_signals().into_iter().filter(|kind| kind.is_shutdown()).collect();
    assert_eq!(shutdown, vec![SignalKind::Interrupt, SignalKind::Quit, SignalKind::Terminate]);
}
