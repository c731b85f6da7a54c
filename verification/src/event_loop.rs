//! The event loop's policy: how the loop reacts to the result of a poll
//! cycle, to a connection of the health probe and to a process signal.

use vstd::prelude::*;
use crate::message::{QueueError, QueueErrorView, cycle_result_view};

verus! {

/// Seconds the loop keeps from polling after a poll cycle has failed.
pub const BACKOFF_SECONDS: u64 = 5;

/// The process signals that the worker registers for.
#[derive(Clone, Copy, Debug, PartialEq, Eq, Structural)]
pub enum SignalKind {
    Interrupt,
    Quit,
    Terminate,
    BrokenPipe,
}

impl SignalKind {
    /// Interrupt, quit and terminate ask the worker to shut down, and the
    /// loop does not tell them apart. A broken pipe is registered only so
    /// that it does not end the process; the loop does nothing on it.
    pub open spec fn requests_shutdown(self) -> bool {
        self is Interrupt || self is Quit || self is Terminate
    }

    /// Whether this signal asks the worker to shut down.
    pub fn is_shutdown(self) -> (shutdown: bool)
        ensures
            shutdown == self.requests_shutdown(),
    {
        match self {
            SignalKind::Interrupt => true,
            SignalKind::Quit => true,
            SignalKind::Terminate => true,
            SignalKind::BrokenPipe => false,
        }
    }
}

/// The signals to register at start-up, in the order of registration.
pub open spec fn registrations() -> Seq<SignalKind> {
    seq![SignalKind::Interrupt, SignalKind::Quit, SignalKind::Terminate, SignalKind::BrokenPipe]
}

/// The signals to register at start-up, in the order of registration: the
/// three that shut the worker down, then the one that is only suppressed.
pub fn registered_signals() -> (kinds: Vec<SignalKind>)
    ensures
        kinds@ == registrations(),
{
    let mut kinds: Vec<SignalKind> = Vec::new();
    kinds.push(SignalKind::Interrupt);
    kinds.push(SignalKind::Quit);
    kinds.push(SignalKind::Terminate);
    kinds.push(SignalKind::BrokenPipe);
    assert(kinds@ =~= registrations());
    kinds
}

/// The two states of the event loop. `Terminated` is final.
#[derive(Clone, Copy, Debug, PartialEq, Eq, Structural)]
pub enum LoopState {
    Running,
    Terminated,
}

/// What the loop waits for.
#[derive(Debug, PartialEq, Eq)]
pub enum LoopEvent {
    /// A poll cycle has ended with this result.
    PollResult(Result<(), QueueError>),
    /// The health probe accepted a connection.
    ProbeConnection,
    /// The process received a signal.
    Signal(SignalKind),
}

/// Mathematical model of a [`LoopEvent`].
pub enum LoopEventView {
    PollResult(Result<(), QueueErrorView>),
    ProbeConnection,
    Signal(SignalKind),
}

impl View for LoopEvent {
    type V = LoopEventView;

    open spec fn view(&self) -> LoopEventView {
        match self {
            LoopEvent::PollResult(result) => LoopEventView::PollResult(cycle_result_view(*result)),
            LoopEvent::ProbeConnection => LoopEventView::ProbeConnection,
            LoopEvent::Signal(kind) => LoopEventView::Signal(*kind),
        }
    }
}

/// How the loop reacts to an event.
#[derive(Clone, Debug, PartialEq, Eq)]
pub enum Reaction {
    /// Begin the next poll cycle at once.
    PollAgain,
    /// Report the error and keep from polling for so many seconds.
    Backoff { error: QueueError, seconds: u64 },
    /// The health probe was reached; nothing changes.
    Ping,
    /// The event asks for nothing.
    Ignore,
    /// Leave the loop and return success.
    Exit,
}

/// Mathematical model of a [`Reaction`].
pub enum ReactionView {
    PollAgain,
    Backoff { error: QueueErrorView, seconds: nat },
    Ping,
    Ignore,
    Exit,
}

impl View for Reaction {
    type V = ReactionView;

    open spec fn view(&self) -> ReactionView {
        match self {
            Reaction::PollAgain => ReactionView::PollAgain,
            Reaction::Backoff { error, seconds } => ReactionView::Backoff {
                error: error@,
                seconds: *seconds as nat,
            },
            Reaction::Ping => ReactionView::Ping,
            Reaction::Ignore => ReactionView::Ignore,
            Reaction::Exit => ReactionView::Exit,
        }
    }
}

/// The loop's transition: the state after `event`, and the reaction to it.
///
/// A terminated loop stays terminated. A running loop terminates on a signal
/// that requests shutdown and on nothing else; a failed poll cycle is
/// followed by the fixed backoff, a successful one by the next cycle.
pub open spec fn transition(state: LoopState, event: LoopEventView) -> (LoopState, ReactionView) {
    match state {
        LoopState::Terminated => (LoopState::Terminated, ReactionView::Exit),
        LoopState::Running => match event {
            LoopEventView::PollResult(Ok(_)) => (LoopState::Running, ReactionView::PollAgain),
            LoopEventView::PollResult(Err(error)) => (
                LoopState::Running,
                ReactionView::Backoff { error, seconds: BACKOFF_SECONDS as nat },
            ),
            LoopEventView::ProbeConnection => (LoopState::Running, ReactionView::Ping),
            LoopEventView::Signal(kind) => if kind.requests_shutdown() {
                (LoopState::Terminated, ReactionView::Exit)
            } else {
                (LoopState::Running, ReactionView::Ignore)
            },
        },
    }
}

/// Reacts to one event: returns the loop's next state and what to do.
pub fn react(state: LoopState, event: LoopEvent) -> (next: (LoopState, Reaction))
    ensures
        (next.0, next.1@) == transition(state, event@),
{
    match state {
        LoopState::Terminated => (LoopState::Terminated, Reaction::Exit),
        LoopState::Running => match event {
            LoopEvent::PollResult(Ok(_)) => (LoopState::Running, Reaction::PollAgain),
            LoopEvent::PollResult(Err(error)) => (
                LoopState::Running,
                Reaction::Backoff { error, seconds: BACKOFF_SECONDS },
            ),
            LoopEvent::ProbeConnection => (LoopState::Running, Reaction::Ping),
            LoopEvent::Signal(kind) => if kind.is_shutdown() {
                (LoopState::Terminated, Reaction::Exit)
            } else {
                (LoopState::Running, Reaction::Ignore)
            },
        },
    }
}

/// A signal that requests shutdown terminates the loop from either state,
/// and the reaction is to exit.
pub proof fn lemma_shutdown_signal_terminates(state: LoopState, kind: SignalKind)
    requires
        kind.requests_shutdown(),
    ensures
        transition(state, LoopEventView::Signal(kind)) == (
            LoopState::Terminated,
            ReactionView::Exit,
        ),
{
}

/// A running loop terminates only on a signal that requests shutdown, and it
/// exits exactly when it is terminated.
pub proof fn lemma_only_shutdown_signal_terminates(event: LoopEventView)
    ensures
        transition(LoopState::Running, event).0 is Terminated <==> (event matches LoopEventView::Signal(
            kind,
        ) && kind.requests_shutdown()),
        transition(LoopState::Running, event).1 is Exit <==> transition(
            LoopState::Running,
            event,
        ).0 is Terminated,
{
}

/// A failed poll cycle is always answered with the fixed backoff, a
/// successful one never with a delay.
pub proof fn lemma_backoff_follows_failure_only(result: Result<(), QueueErrorView>)
    ensures
        result matches Err(error) ==> transition(
            LoopState::Running,
            LoopEventView::PollResult(result),
        ).1 == (ReactionView::Backoff { error, seconds: BACKOFF_SECONDS as nat }),
        result is Ok ==> transition(LoopState::Running, LoopEventView::PollResult(result)).1
            == ReactionView::PollAgain,
{
}

} // verus!
