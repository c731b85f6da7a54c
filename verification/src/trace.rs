//! Runs of a worker over sequences of events, and what holds of every run.

use vstd::prelude::*;
use crate::message::{MessageView, DeleteRequestView, QueueErrorView, long_poll};
use crate::poll::{
    receipt_handles, skip_unacknowledgeable, lemma_skip_unacknowledgeable,
    lemma_handles_of_ready,
};
use crate::event_loop::{BACKOFF_SECONDS, LoopState, SignalKind};
use crate::worker::{ActionView, EventView, PollerView, WorkerView};

verus! {

/// The worker after it has taken `events` one after the other.
pub open spec fn run(worker: WorkerView, events: Seq<EventView>) -> WorkerView
    decreases events.len(),
{
    if events.len() == 0 {
        worker
    } else {
        run(worker, events.drop_last()).step(events.last()).0
    }
}

/// What the worker asks for on the event at index `i` of `events`.
pub open spec fn action_at(worker: WorkerView, events: Seq<EventView>, i: int) -> ActionView
    recommends
        0 <= i < events.len(),
{
    run(worker, events.take(i)).step(events[i]).1
}

/// The receipt handles of the acknowledge requests that the worker asks for
/// over `events`, in the order in which it asks for them.
pub open spec fn acknowledged(worker: WorkerView, events: Seq<EventView>) -> Seq<Seq<char>>
    decreases events.len(),
{
    if events.len() == 0 {
        Seq::empty()
    } else {
        let before = acknowledged(worker, events.drop_last());
        match run(worker, events.drop_last()).step(events.last()).1 {
            ActionView::Acknowledge(request) => before.push(request.receipt_handle),
            _ => before,
        }
    }
}

/// The error with which `event` ends the poll cycle of `worker`, if it does:
/// the receive request or the acknowledgment in flight has failed.
pub open spec fn cycle_failure(worker: WorkerView, event: EventView) -> Option<QueueErrorView> {
    match (worker.poller, event) {
        (PollerView::Receiving, EventView::Received(Err(reason))) => Some(
            QueueErrorView::Receive(reason),
        ),
        (PollerView::Acknowledging { pending }, EventView::Acknowledged(Err(reason))) => Some(
            QueueErrorView::Acknowledge(reason),
        ),
        _ => None,
    }
}

/// Whether `event` ends the poll cycle of `worker` in success: the batch
/// came, or the acknowledgment in flight succeeded, and no message that has a
/// receipt handle is left.
pub open spec fn cycle_success(worker: WorkerView, event: EventView) -> bool {
    match (worker.poller, event) {
        (PollerView::Receiving, EventView::Received(Ok(batch))) => receipt_handles(batch).len()
            == 0,
        (PollerView::Acknowledging { pending }, EventView::Acknowledged(Ok(_))) => receipt_handles(
            pending.drop_first(),
        ).len() == 0,
        _ => false,
    }
}

/// The messages that `event` leaves the poll cycle of `worker` to look at:
/// the batch that came, or the messages after the one whose acknowledgment
/// succeeded.
pub open spec fn left_to_acknowledge(worker: WorkerView, event: EventView) -> Option<
    Seq<MessageView>,
> {
    match (worker.poller, event) {
        (PollerView::Receiving, EventView::Received(Ok(batch))) => Some(batch),
        (PollerView::Acknowledging { pending }, EventView::Acknowledged(Ok(_))) => Some(
            pending.drop_first(),
        ),
        _ => None,
    }
}

/// One poll cycle as the queue may answer it: the batch, then `successes`
/// acknowledgments that succeed.
pub open spec fn cycle_events(batch: Seq<MessageView>, successes: nat) -> Seq<EventView> {
    seq![EventView::Received(Ok(batch))] + Seq::new(
        successes,
        |i: int| EventView::Acknowledged(Ok(())),
    )
}

/// Taking one more event is one more step.
pub proof fn lemma_run_push(worker: WorkerView, events: Seq<EventView>, event: EventView)
    ensures
        run(worker, events.push(event)) == run(worker, events).step(event).0,
        acknowledged(worker, events.push(event)) == match run(worker, events).step(event).1 {
            ActionView::Acknowledge(request) => acknowledged(worker, events).push(
                request.receipt_handle,
            ),
            _ => acknowledged(worker, events),
        },
{
    assert(events.push(event).drop_last() =~= events);
}

/// A run over two sequences of events in a row is the run over the second
/// from where the first one ends.
pub proof fn lemma_run_concat(worker: WorkerView, first: Seq<EventView>, second: Seq<EventView>)
    ensures
        run(worker, first + second) == run(run(worker, first), second),
    decreases second.len(),
{
    if second.len() == 0 {
        assert(first + second =~= first);
    } else {
        lemma_run_concat(worker, first, second.drop_last());
        assert((first + second).drop_last() =~= first + second.drop_last());
    }
}

/// A step keeps a worker well formed, on the same queue.
pub proof fn lemma_step_wf(worker: WorkerView, event: EventView)
    requires
        worker.wf(),
    ensures
        worker.step(event).0.wf(),
        worker.step(event).0.queue_url == worker.queue_url,
{
    match event {
        EventView::Received(Ok(batch)) => {
            lemma_skip_unacknowledgeable(batch);
        },
        EventView::Acknowledged(Ok(_)) => {
            if let PollerView::Acknowledging { pending } = worker.poller {
                lemma_skip_unacknowledgeable(pending.drop_first());
            }
        },
        _ => {},
    }
}

/// A run keeps a worker well formed, on the same queue.
pub proof fn lemma_run_wf(worker: WorkerView, events: Seq<EventView>)
    requires
        worker.wf(),
    ensures
        run(worker, events).wf(),
        run(worker, events).queue_url == worker.queue_url,
    decreases events.len(),
{
    if events.len() > 0 {
        lemma_run_wf(worker, events.drop_last());
        lemma_step_wf(run(worker, events.drop_last()), events.last());
    }
}

/// When a poll cycle fails, on its receive request or on an acknowledgment,
/// the worker reports the error, asks for the fixed backoff and keeps from
/// polling.
pub proof fn lemma_failed_cycle_backs_off(worker: WorkerView, event: EventView)
    requires
        worker.state is Running,
        cycle_failure(worker, event) is Some,
    ensures
        worker.step(event) == (
            WorkerView { poller: PollerView::BackingOff, ..worker },
            ActionView::Backoff {
                error: cycle_failure(worker, event)->0,
                seconds: BACKOFF_SECONDS as nat,
            },
        ),
{
}

/// When a poll cycle succeeds, the worker sends the next receive request in
/// the same step: no delay stands between two cycles.
pub proof fn lemma_successful_cycle_polls_at_once(worker: WorkerView, event: EventView)
    requires
        worker.wf(),
        worker.state is Running,
        cycle_success(worker, event),
    ensures
        worker.step(event) == (
            WorkerView { poller: PollerView::Receiving, ..worker },
            ActionView::Receive(long_poll(worker.queue_url)),
        ),
{
    match (worker.poller, event) {
        (PollerView::Receiving, EventView::Received(Ok(batch))) => {
            lemma_skip_unacknowledgeable(batch);
            lemma_handles_of_ready(skip_unacknowledgeable(batch));
        },
        (PollerView::Acknowledging { pending }, EventView::Acknowledged(Ok(_))) => {
            lemma_skip_unacknowledgeable(pending.drop_first());
            lemma_handles_of_ready(skip_unacknowledgeable(pending.drop_first()));
        },
        _ => {},
    }
}

/// The worker asks for a backoff only when a poll cycle has failed, and for a
/// receive request only when a cycle has succeeded or the backoff timer has
/// run out while it was backing off.
pub proof fn lemma_delay_and_receive_have_one_cause_each(worker: WorkerView, event: EventView)
    requires
        worker.wf(),
    ensures
        worker.step(event).1 is Backoff <==> worker.state is Running && cycle_failure(
            worker,
            event,
        ) is Some,
        worker.step(event).1 is Receive <==> worker.state is Running && (cycle_success(
            worker,
            event,
        ) || (worker.poller is BackingOff && event is BackoffElapsed)),
        worker.step(event).1 is Backoff ==> worker.step(event).0.poller is BackingOff,
{
    match (worker.poller, event) {
        (PollerView::Receiving, EventView::Received(Ok(batch))) => {
            lemma_skip_unacknowledgeable(batch);
            lemma_handles_of_ready(skip_unacknowledgeable(batch));
        },
        (PollerView::Acknowledging { pending }, EventView::Acknowledged(Ok(_))) => {
            lemma_skip_unacknowledgeable(pending.drop_first());
            lemma_handles_of_ready(skip_unacknowledgeable(pending.drop_first()));
        },
        _ => {},
    }
}

/// A worker asks for an acknowledgment only of a message that has a receipt
/// handle: the first such message among those that the event leaves it to
/// look at. The messages before that one have no receipt handle and are
/// passed over.
pub proof fn lemma_acknowledge_needs_receipt_handle(worker: WorkerView, event: EventView)
    requires
        worker.wf(),
    ensures
        worker.step(event).1 matches ActionView::Acknowledge(request) ==> {
            &&& worker.state is Running
            &&& left_to_acknowledge(worker, event) matches Some(rest)
            &&& worker.step(event).0.poller == (PollerView::Acknowledging {
                pending: skip_unacknowledgeable(rest),
            })
            &&& skip_unacknowledgeable(rest).len() > 0
            &&& skip_unacknowledgeable(rest)[0].receipt_handle == Some(request.receipt_handle)
            &&& receipt_handles(rest).len() > 0
            &&& receipt_handles(rest)[0] == request.receipt_handle
            &&& request.queue_url == worker.queue_url
        },
{
    if let Some(rest) = left_to_acknowledge(worker, event) {
        lemma_skip_unacknowledgeable(rest);
        lemma_handles_of_ready(skip_unacknowledgeable(rest));
    }
}

/// While a worker is backing off and the backoff timer has not run out, it
/// sends no request to the queue and starts no second timer, whatever else
/// happens; probe connections are still answered.
pub proof fn lemma_backoff_holds_polling(worker: WorkerView, events: Seq<EventView>)
    requires
        worker.poller is BackingOff,
        forall|i: int| 0 <= i < events.len() ==> !(#[trigger] events[i] is BackoffElapsed),
    ensures
        run(worker, events).poller is BackingOff,
        forall|i: int|
            0 <= i < events.len() ==> {
                let action = #[trigger] action_at(worker, events, i);
                &&& !(action is Receive)
                &&& !(action is Acknowledge)
                &&& !(action is Backoff)
                &&& (events[i] is ProbeConnection && run(worker, events.take(i)).state is Running
                    ==> action is Ping)
            },
    decreases events.len(),
{
    if events.len() > 0 {
        let earlier = events.drop_last();
        lemma_backoff_holds_polling(worker, earlier);
        assert forall|i: int| 0 <= i < events.len() implies {
            let action = #[trigger] action_at(worker, events, i);
            &&& !(action is Receive)
            &&& !(action is Acknowledge)
            &&& !(action is Backoff)
            &&& (events[i] is ProbeConnection && run(worker, events.take(i)).state is Running
                ==> action is Ping)
        } by {
            if i < earlier.len() {
                assert(events.take(i) =~= earlier.take(i));
                assert(action_at(worker, events, i) == action_at(worker, earlier, i));
            } else {
                assert(events.take(i) =~= earlier);
                assert(!(events[i] is BackoffElapsed));
            }
        }
        assert(!(events.last() is BackoffElapsed));
    }
}

/// Between a backoff that the worker asked for and the next receive request
/// that it sends, the backoff timer has run out.
pub proof fn lemma_backoff_precedes_next_receive(
    worker: WorkerView,
    events: Seq<EventView>,
    failed: int,
    retried: int,
)
    requires
        worker.wf(),
        0 <= failed < retried < events.len(),
        action_at(worker, events, failed) is Backoff,
        action_at(worker, events, retried) is Receive,
    ensures
        exists|k: int| failed < k <= retried && #[trigger] events[k] is BackoffElapsed,
{
    if !(exists|k: int| failed < k <= retried && #[trigger] events[k] is BackoffElapsed) {
        let before = run(worker, events.take(failed));
        lemma_run_wf(worker, events.take(failed));
        lemma_delay_and_receive_have_one_cause_each(before, events[failed]);
        let start = before.step(events[failed]).0;
        assert(events.take(failed + 1) =~= events.take(failed).push(events[failed]));
        lemma_run_push(worker, events.take(failed), events[failed]);
        assert(run(worker, events.take(failed + 1)) == start);
        let quiet = events.subrange(failed + 1, retried + 1);
        assert forall|i: int| 0 <= i < quiet.len() implies !(#[trigger] quiet[i]
            is BackoffElapsed) by {
            assert(quiet[i] == events[failed + 1 + i]);
        }
        lemma_backoff_holds_polling(start, quiet);
        let last = retried - failed - 1;
        assert(quiet.take(last) =~= events.subrange(failed + 1, retried));
        assert(events.take(retried) =~= events.take(failed + 1) + events.subrange(
            failed + 1,
            retried,
        ));
        lemma_run_concat(worker, events.take(failed + 1), events.subrange(failed + 1, retried));
        assert(action_at(start, quiet, last) == action_at(worker, events, retried));
    }
}

/// The state of a poll cycle on a batch after `successes` of its
/// acknowledgments have succeeded: the acknowledgment in flight is that of
/// the next receipt handle of the batch, in batch order, and the requests
/// sent so far are those of the receipt handles before it and its own. When
/// every receipt handle has been acknowledged, the next cycle has begun.
pub proof fn lemma_cycle_progress(queue_url: Seq<char>, batch: Seq<MessageView>, successes: nat)
    requires
        successes <= receipt_handles(batch).len(),
    ensures
        ({
            let handles = receipt_handles(batch);
            let start = WorkerView::initial(queue_url);
            let events = cycle_events(batch, successes);
            let now = run(start, events);
            &&& now.queue_url == queue_url
            &&& now.state is Running
            &&& successes < handles.len() ==> {
                &&& now.poller matches PollerView::Acknowledging { pending }
                &&& pending.len() > 0
                &&& pending[0].receipt_handle == Some(handles[successes as int])
                &&& receipt_handles(pending) == handles.skip(successes as int)
                &&& action_at(start, events, successes as int) == ActionView::Acknowledge(
                    DeleteRequestView {
                        queue_url,
                        receipt_handle: handles[successes as int],
                    },
                )
                &&& acknowledged(start, events) == handles.take((successes + 1) as int)
            }
            &&& successes == handles.len() ==> {
                &&& now.poller is Receiving
                &&& action_at(start, events, successes as int) == ActionView::Receive(
                    long_poll(queue_url),
                )
                &&& acknowledged(start, events) == handles
            }
        }),
    decreases successes,
{
    let handles = receipt_handles(batch);
    let start = WorkerView::initial(queue_url);
    let events = cycle_events(batch, successes);
    if successes == 0 {
        let event = EventView::Received(Ok(batch));
        let none = Seq::<EventView>::empty();
        assert(events =~= none.push(event));
        lemma_run_push(start, none, event);
        assert(events.take(0) =~= none);
        lemma_skip_unacknowledgeable(batch);
        let pending = skip_unacknowledgeable(batch);
        lemma_handles_of_ready(pending);
        if handles.len() > 0 {
            assert(handles.skip(0) =~= handles);
            assert(handles.take(1) =~= Seq::<Seq<char>>::empty().push(handles[0]));
        } else {
            assert(handles =~= Seq::<Seq<char>>::empty());
        }
    } else {
        let done = (successes - 1) as nat;
        let earlier = cycle_events(batch, done);
        let event = EventView::Acknowledged(Ok(()));
        lemma_cycle_progress(queue_url, batch, done);
        assert(events =~= earlier.push(event));
        lemma_run_push(start, earlier, event);
        assert(events.take(successes as int) =~= earlier);
        let before = run(start, earlier);
        let waiting = before.poller->pending;
        lemma_handles_of_ready(waiting);
        lemma_skip_unacknowledgeable(waiting.drop_first());
        let pending = skip_unacknowledgeable(waiting.drop_first());
        lemma_handles_of_ready(pending);
        assert(handles.skip(done as int).skip(1) =~= handles.skip(successes as int));
        if successes < handles.len() {
            assert(handles.skip(successes as int)[0] == handles[successes as int]);
            assert(handles.take((successes + 1) as int) =~= handles.take((done + 1) as int).push(
                handles[successes as int],
            ));
        } else {
            assert(handles.skip(successes as int).len() == 0);
            assert(handles.take((done + 1) as int) =~= handles);
        }
    }
}

/// The acknowledgments of a poll cycle go out in the order in which the
/// messages were delivered, each after the one before it has succeeded, and
/// only for messages that have a receipt handle. When one of them fails, the
/// cycle ends in that error: the worker backs off, and the receipt handles
/// after the failed one are never sent.
pub proof fn lemma_failed_acknowledgment_ends_cycle(
    queue_url: Seq<char>,
    batch: Seq<MessageView>,
    successes: nat,
    reason: Seq<char>,
)
    requires
        successes < receipt_handles(batch).len(),
    ensures
        ({
            let start = WorkerView::initial(queue_url);
            let events = cycle_events(batch, successes).push(EventView::Acknowledged(Err(reason)));
            &&& acknowledged(start, events) == receipt_handles(batch).take((successes + 1) as int)
            &&& run(start, events).poller is BackingOff
            &&& action_at(start, events, (successes + 1) as int) == (ActionView::Backoff {
                error: QueueErrorView::Acknowledge(reason),
                seconds: BACKOFF_SECONDS as nat,
            })
        }),
{
    let start = WorkerView::initial(queue_url);
    let earlier = cycle_events(batch, successes);
    let event = EventView::Acknowledged(Err(reason));
    lemma_cycle_progress(queue_url, batch, successes);
    lemma_run_push(start, earlier, event);
    assert(earlier.push(event).take((successes + 1) as int) =~= earlier);
}

/// A probe connection and a signal that only is suppressed leave a running
/// worker as it is: the request or timer that is outstanding stays so.
pub proof fn lemma_observation_changes_nothing(worker: WorkerView)
    requires
        worker.state is Running,
    ensures
        worker.step(EventView::ProbeConnection) == (worker, ActionView::Ping),
        worker.step(EventView::Signal(SignalKind::BrokenPipe)) == (worker, ActionView::Ignore),
{
}

/// A signal that requests shutdown terminates the worker, and the worker
/// exits, whatever its polling side is waiting for: the answer to a request
/// or the end of a backoff.
pub proof fn lemma_shutdown_signal_terminates(worker: WorkerView, kind: SignalKind)
    requires
        kind.requests_shutdown(),
    ensures
        worker.step(EventView::Signal(kind)) == (
            WorkerView { state: LoopState::Terminated, ..worker },
            ActionView::Exit,
        ),
{
}

/// A running worker terminates on a signal that requests shutdown and on no
/// other event, and it exits exactly when it has terminated.
pub proof fn lemma_only_shutdown_signal_terminates(worker: WorkerView, event: EventView)
    requires
        worker.wf(),
        worker.state is Running,
    ensures
        worker.step(event).0.state is Terminated <==> (event matches EventView::Signal(kind)
            && kind.requests_shutdown()),
        worker.step(event).1 is Exit <==> worker.step(event).0.state is Terminated,
{
    match event {
        EventView::Received(Ok(batch)) => {
            lemma_skip_unacknowledgeable(batch);
        },
        EventView::Acknowledged(Ok(_)) => {
            if let PollerView::Acknowledging { pending } = worker.poller {
                lemma_skip_unacknowledgeable(pending.drop_first());
            }
        },
        _ => {},
    }
}

/// A terminated worker stays as it is and only exits.
pub proof fn lemma_terminated_is_final(worker: WorkerView, events: Seq<EventView>)
    requires
        worker.state is Terminated,
    ensures
        run(worker, events) == worker,
        forall|i: int|
            0 <= i < events.len() ==> #[trigger] action_at(worker, events, i) == ActionView::Exit,
    decreases events.len(),
{
    if events.len() > 0 {
        lemma_terminated_is_final(worker, events.drop_last());
        assert forall|i: int| 0 <= i < events.len() implies #[trigger] action_at(
            worker,
            events,
            i,
        ) == ActionView::Exit by {
            lemma_terminated_is_final(worker, events.take(i));
        }
    }
}

/// A worker that was running has terminated after a run exactly when a
/// signal that requests shutdown was among the events.
pub proof fn lemma_terminated_iff_shutdown_signal(worker: WorkerView, events: Seq<EventView>)
    requires
        worker.wf(),
        worker.state is Running,
    ensures
        run(worker, events).state is Terminated <==> exists|i: int|
            0 <= i < events.len() && (#[trigger] events[i] matches EventView::Signal(kind)
                && kind.requests_shutdown()),
    decreases events.len(),
{
    if events.len() > 0 {
        let earlier = events.drop_last();
        let before = run(worker, earlier);
        lemma_terminated_iff_shutdown_signal(worker, earlier);
        lemma_run_wf(worker, earlier);
        if before.state is Running {
            lemma_only_shutdown_signal_terminates(before, events.last());
        }
        if run(worker, events).state is Terminated {
            if before.state is Terminated {
                let i = choose|i: int|
                    0 <= i < earlier.len() && (#[trigger] earlier[i] matches EventView::Signal(kind)
                        && kind.requests_shutdown());
                assert(events[i] == earlier[i]);
            } else {
                assert(events[events.len() - 1] == events.last());
            }
        }
        if exists|i: int|
            0 <= i < events.len() && (#[trigger] events[i] matches EventView::Signal(kind)
                && kind.requests_shutdown()) {
            let i = choose|i: int|
                0 <= i < events.len() && (#[trigger] events[i] matches EventView::Signal(kind)
                    && kind.requests_shutdown());
            if i < earlier.len() {
                assert(earlier[i] == events[i]);
            }
        }
    }
}

} // verus!
