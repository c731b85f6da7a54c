//! The worker: the event loop together with the poll cycle it drives.
//!
//! A worker is a state machine. The caller performs what an [`Action`] asks
//! for (a request to the queue, a timer) and reports each thing that happens
//! (an answer of the queue, the timer running out, a probe connection, a
//! signal) as an [`Event`]. At most one request or timer is outstanding at any
//! time, so cycles never overlap and acknowledgments go out one by one.

use vstd::prelude::*;
use vstd::string::StringExecFns;
use crate::message::{
    Message, MessageView, ReceiveRequest, ReceiveRequestView, DeleteRequest, DeleteRequestView,
    QueueError, QueueErrorView, long_poll, received_view, acknowledged_view,
};
use crate::poll::{
    AwaitingAck, AwaitingAckView, AwaitingBatch, CycleStep, CycleStepView, after_acknowledge,
    after_receive, lemma_advance_wf,
};
use crate::event_loop::{
    LoopEvent, LoopEventView, LoopState, Reaction, ReactionView, SignalKind, react, transition,
};

verus! {

/// Something that happened and that the worker has to hear of.
#[derive(Debug, PartialEq, Eq)]
pub enum Event {
    /// The receive request came back: with a batch of messages, or with the
    /// reason of its failure.
    Received(Result<Vec<Message>, String>),
    /// The acknowledge request came back: done, or with the reason of its
    /// failure.
    Acknowledged(Result<(), String>),
    /// The backoff timer ran out.
    BackoffElapsed,
    /// The health probe accepted a connection.
    ProbeConnection,
    /// The process received a signal.
    Signal(SignalKind),
}

/// Mathematical model of an [`Event`].
pub enum EventView {
    Received(Result<Seq<MessageView>, Seq<char>>),
    Acknowledged(Result<(), Seq<char>>),
    BackoffElapsed,
    ProbeConnection,
    Signal(SignalKind),
}

impl View for Event {
    type V = EventView;

    open spec fn view(&self) -> EventView {
        match self {
            Event::Received(result) => EventView::Received(received_view(*result)),
            Event::Acknowledged(result) => EventView::Acknowledged(acknowledged_view(*result)),
            Event::BackoffElapsed => EventView::BackoffElapsed,
            Event::ProbeConnection => EventView::ProbeConnection,
            Event::Signal(kind) => EventView::Signal(*kind),
        }
    }
}

/// What the caller has to do after an event.
#[derive(Clone, Debug, PartialEq, Eq)]
pub enum Action {
    /// Send the receive request and report its answer.
    Receive(ReceiveRequest),
    /// Send the acknowledge request and report its answer.
    Acknowledge(DeleteRequest),
    /// Report the error, start a timer of so many seconds and report when it
    /// has run out. No request is sent in the meantime.
    Backoff { error: QueueError, seconds: u64 },
    /// The health probe was reached. Nothing is to be started.
    Ping,
    /// The event answered nothing that was outstanding. Nothing is to be
    /// started.
    Ignore,
    /// Leave the loop and return success.
    Exit,
}

/// Mathematical model of an [`Action`].
pub enum ActionView {
    Receive(ReceiveRequestView),
    Acknowledge(DeleteRequestView),
    Backoff { error: QueueErrorView, seconds: nat },
    Ping,
    Ignore,
    Exit,
}

impl View for Action {
    type V = ActionView;

    open spec fn view(&self) -> ActionView {
        match self {
            Action::Receive(request) => ActionView::Receive(request@),
            Action::Acknowledge(request) => ActionView::Acknowledge(request@),
            Action::Backoff { error, seconds } => ActionView::Backoff {
                error: error@,
                seconds: *seconds as nat,
            },
            Action::Ping => ActionView::Ping,
            Action::Ignore => ActionView::Ignore,
            Action::Exit => ActionView::Exit,
        }
    }
}

/// What the polling side of a worker is waiting for.
pub enum PollerView {
    /// The answer to a receive request.
    Receiving,
    /// The answer to the acknowledgment of `pending[0]`; the rest of
    /// `pending` are the messages delivered after it.
    Acknowledging { pending: Seq<MessageView> },
    /// The backoff timer.
    BackingOff,
}

/// Mathematical model of a [`Worker`].
pub struct WorkerView {
    pub queue_url: Seq<char>,
    pub state: LoopState,
    pub poller: PollerView,
}

impl WorkerView {
    /// An acknowledgment is in flight only for a message that has a receipt
    /// handle.
    pub open spec fn wf(self) -> bool {
        self.poller matches PollerView::Acknowledging { pending } ==> (AwaitingAckView {
            queue_url: self.queue_url,
            pending,
        }).wf()
    }

    /// A worker that has just begun its first poll cycle.
    pub open spec fn initial(queue_url: Seq<char>) -> WorkerView {
        WorkerView { queue_url, state: LoopState::Running, poller: PollerView::Receiving }
    }

    /// The worker after the loop has reacted: the next cycle begins, the
    /// backoff begins, or the polling side stays as it is.
    pub open spec fn settle(self, reacted: (LoopState, ReactionView)) -> (WorkerView, ActionView) {
        let state = reacted.0;
        match reacted.1 {
            ReactionView::PollAgain => (
                WorkerView { state, poller: PollerView::Receiving, ..self },
                ActionView::Receive(long_poll(self.queue_url)),
            ),
            ReactionView::Backoff { error, seconds } => (
                WorkerView { state, poller: PollerView::BackingOff, ..self },
                ActionView::Backoff { error, seconds },
            ),
            ReactionView::Ping => (WorkerView { state, ..self }, ActionView::Ping),
            ReactionView::Ignore => (WorkerView { state, ..self }, ActionView::Ignore),
            ReactionView::Exit => (WorkerView { state, ..self }, ActionView::Exit),
        }
    }

    /// The worker after a step of its poll cycle: the next acknowledgment
    /// goes out, or the cycle's result goes to the loop.
    pub open spec fn progress(self, step: CycleStepView) -> (WorkerView, ActionView) {
        match step {
            CycleStepView::Acknowledge(next, request) => (
                WorkerView {
                    poller: PollerView::Acknowledging { pending: next.pending },
                    ..self
                },
                ActionView::Acknowledge(request),
            ),
            CycleStepView::Done(result) => self.settle(
                transition(self.state, LoopEventView::PollResult(result)),
            ),
        }
    }

    /// The worker's transition: its state after `event`, and what the caller
    /// has to do.
    ///
    /// A terminated worker only exits. A running worker hands signals and
    /// probe connections to the loop whatever its polling side waits for;
    /// an answer of the queue moves the poll cycle on if it answers the
    /// request in flight; the end of the backoff begins the next cycle.
    /// Every other event is ignored.
    pub open spec fn step(self, event: EventView) -> (WorkerView, ActionView) {
        match self.state {
            LoopState::Terminated => (self, ActionView::Exit),
            LoopState::Running => match event {
                EventView::Signal(kind) => self.settle(
                    transition(self.state, LoopEventView::Signal(kind)),
                ),
                EventView::ProbeConnection => self.settle(
                    transition(self.state, LoopEventView::ProbeConnection),
                ),
                EventView::Received(result) => match self.poller {
                    PollerView::Receiving => self.progress(after_receive(self.queue_url, result)),
                    _ => (self, ActionView::Ignore),
                },
                EventView::Acknowledged(result) => match self.poller {
                    PollerView::Acknowledging { pending } => self.progress(
                        after_acknowledge(
                            AwaitingAckView { queue_url: self.queue_url, pending },
                            result,
                        ),
                    ),
                    _ => (self, ActionView::Ignore),
                },
                EventView::BackoffElapsed => match self.poller {
                    PollerView::BackingOff => (
                        WorkerView { poller: PollerView::Receiving, ..self },
                        ActionView::Receive(long_poll(self.queue_url)),
                    ),
                    _ => (self, ActionView::Ignore),
                },
            },
        }
    }
}

/// What the polling side of a worker is waiting for.
#[derive(Debug)]
enum Poller {
    Receiving(AwaitingBatch),
    Acknowledging(AwaitingAck),
    BackingOff,
}

/// A worker that drains one queue.
#[derive(Debug)]
pub struct Worker {
    queue_url: String,
    state: LoopState,
    poller: Poller,
}

impl View for Worker {
    type V = WorkerView;

    closed spec fn view(&self) -> WorkerView {
        WorkerView {
            queue_url: self.queue_url@,
            state: self.state,
            poller: poller_view(self.poller),
        }
    }
}

impl Worker {
    #[verifier::type_invariant]
    spec fn inv(self) -> bool {
        poller_inv(self.queue_url@, self.poller)
    }

    /// Starts a worker on the queue at `queue_url`: returns the worker, in
    /// its first poll cycle, and the receive request to send.
    pub fn start(queue_url: &str) -> (started: (Worker, Action))
        ensures
            started.0@ == WorkerView::initial(queue_url@),
            started.1@ == ActionView::Receive(long_poll(queue_url@)),
    {
        let (cycle, request) = AwaitingBatch::begin(queue_url);
        let worker = Worker {
            queue_url: String::from_str(queue_url),
            state: LoopState::Running,
            poller: Poller::Receiving(cycle),
        };
        (worker, Action::Receive(request))
    }

    /// The URL of the queue that this worker drains.
    pub fn queue_url(&self) -> (url: &str)
        ensures
            url@ == self@.queue_url,
    {
        self.queue_url.as_str()
    }

    /// Whether the worker has terminated.
    pub fn is_terminated(&self) -> (terminated: bool)
        ensures
            terminated == (self@.state is Terminated),
    {
        match self.state {
            LoopState::Terminated => true,
            LoopState::Running => false,
        }
    }

    /// Whether the worker keeps from polling until the backoff timer has run
    /// out.
    pub fn is_backing_off(&self) -> (backing_off: bool)
        ensures
            backing_off == (self@.poller is BackingOff),
    {
        match self.poller {
            Poller::BackingOff => true,
            _ => false,
        }
    }

    /// Takes one event: returns the worker after it and what the caller has
    /// to do.
    pub fn handle(self, event: Event) -> (next: (Worker, Action))
        ensures
            (next.0@, next.1@) == self@.step(event@),
            next.0@.wf(),
    {
        proof {
            use_type_invariant(&self);
        }
        let Worker { queue_url, state, poller } = self;
        match state {
            LoopState::Terminated => (Worker { queue_url, state, poller }, Action::Exit),
            LoopState::Running => match event {
                Event::Signal(kind) => settle(queue_url, poller, react(state, LoopEvent::Signal(kind))),
                Event::ProbeConnection => settle(
                    queue_url,
                    poller,
                    react(state, LoopEvent::ProbeConnection),
                ),
                Event::Received(result) => match poller {
                    Poller::Receiving(cycle) => {
                        let step = cycle.on_received(result);
                        proof {
                            if let Ok(batch) = received_view(result) {
                                lemma_advance_wf(queue_url@, batch);
                            }
                        }
                        progress(queue_url, state, Ghost(PollerView::Receiving), step)
                    },
                    _ => (Worker { queue_url, state, poller }, Action::Ignore),
                },
                Event::Acknowledged(result) => match poller {
                    Poller::Acknowledging(cycle) => {
                        let ghost pending = cycle@.pending;
                        let step = cycle.on_acknowledged(result);
                        proof {
                            lemma_advance_wf(queue_url@, pending.drop_first());
                        }
                        progress(
                            queue_url,
                            state,
                            Ghost(PollerView::Acknowledging { pending }),
                            step,
                        )
                    },
                    _ => (Worker { queue_url, state, poller }, Action::Ignore),
                },
                Event::BackoffElapsed => match poller {
                    Poller::BackingOff => {
                        let (cycle, request) = AwaitingBatch::begin(queue_url.as_str());
                        (
                            Worker { queue_url, state, poller: Poller::Receiving(cycle) },
                            Action::Receive(request),
                        )
                    },
                    _ => (Worker { queue_url, state, poller }, Action::Ignore),
                },
            },
        }
    }
}

/// Model of a [`Poller`].
spec fn poller_view(poller: Poller) -> PollerView {
    match poller {
        Poller::Receiving(_) => PollerView::Receiving,
        Poller::Acknowledging(cycle) => PollerView::Acknowledging { pending: cycle@.pending },
        Poller::BackingOff => PollerView::BackingOff,
    }
}

/// A poller polls the queue of its worker, and an acknowledgment is in flight
/// only for a message that has a receipt handle.
spec fn poller_inv(queue_url: Seq<char>, poller: Poller) -> bool {
    match poller {
        Poller::Receiving(cycle) => cycle@ == queue_url,
        Poller::Acknowledging(cycle) => cycle@.queue_url == queue_url && cycle@.wf(),
        Poller::BackingOff => true,
    }
}

/// Puts the loop's reaction into effect.
fn settle(queue_url: String, poller: Poller, reacted: (LoopState, Reaction)) -> (next: (
    Worker,
    Action,
))
    requires
        poller_inv(queue_url@, poller),
    ensures
        (next.0@, next.1@) == (WorkerView {
            queue_url: queue_url@,
            state: LoopState::Running,
            poller: poller_view(poller),
        }).settle((reacted.0, reacted.1@)),
        next.0@.wf(),
{
    let (state, reaction) = reacted;
    match reaction {
        Reaction::PollAgain => {
            let (cycle, request) = AwaitingBatch::begin(queue_url.as_str());
            (Worker { queue_url, state, poller: Poller::Receiving(cycle) }, Action::Receive(request))
        },
        Reaction::Backoff { error, seconds } => (
            Worker { queue_url, state, poller: Poller::BackingOff },
            Action::Backoff { error, seconds },
        ),
        Reaction::Ping => (Worker { queue_url, state, poller }, Action::Ping),
        Reaction::Ignore => (Worker { queue_url, state, poller }, Action::Ignore),
        Reaction::Exit => (Worker { queue_url, state, poller }, Action::Exit),
    }
}

/// Puts a step of the poll cycle into effect.
fn progress(
    queue_url: String,
    state: LoopState,
    Ghost(before): Ghost<PollerView>,
    step: CycleStep,
) -> (next: (Worker, Action))
    requires
        state is Running,
        step@ matches CycleStepView::Acknowledge(cycle, request) ==> cycle.queue_url == queue_url@
            && cycle.wf(),
    ensures
        (next.0@, next.1@) == (WorkerView { queue_url: queue_url@, state, poller: before }).progress(
            step@,
        ),
        next.0@.wf(),
{
    match step {
        CycleStep::Acknowledge(cycle, request) => (
            Worker { queue_url, state, poller: Poller::Acknowledging(cycle) },
            Action::Acknowledge(request),
        ),
        CycleStep::Done(result) => settle(
            queue_url,
            Poller::BackingOff,
            react(state, LoopEvent::PollResult(result)),
        ),
    }
}

} // verus!
