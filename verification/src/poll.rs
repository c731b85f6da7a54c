//! One poll cycle: a receive request, then one acknowledgment at a time for
//! each delivered message that carries a receipt handle, in the order of
//! delivery, stopping at the first acknowledgment that fails.
//!
//! The cycle performs no request itself. Each step hands the caller the next
//! request to send and takes back what the queue answered.

use vstd::prelude::*;
use vstd::string::StringExecFns;
use crate::message::{
    Message, MessageView, ReceiveRequest, DeleteRequest, DeleteRequestView, QueueError,
    QueueErrorView, batch_view, long_poll, received_view, acknowledged_view, cycle_result_view,
};

verus! {

/// The receipt handles of the messages of `batch` that carry one, in batch
/// order.
pub open spec fn receipt_handles(batch: Seq<MessageView>) -> Seq<Seq<char>> {
    batch.filter_map(|message: MessageView| message.receipt_handle)
}

/// `batch` without its leading messages that carry no receipt handle.
pub open spec fn skip_unacknowledgeable(batch: Seq<MessageView>) -> Seq<MessageView>
    decreases batch.len(),
{
    if batch.len() == 0 || batch[0].receipt_handle is Some {
        batch
    } else {
        skip_unacknowledgeable(batch.drop_first())
    }
}

/// Model of a cycle that waits for an acknowledgment: `pending[0]` is the
/// message whose acknowledgment is in flight, the rest are the messages
/// delivered after it.
pub struct AwaitingAckView {
    pub queue_url: Seq<char>,
    pub pending: Seq<MessageView>,
}

impl AwaitingAckView {
    /// An acknowledgment is in flight only for a message that has a receipt
    /// handle.
    pub open spec fn wf(self) -> bool {
        self.pending.len() > 0 && self.pending[0].receipt_handle is Some
    }

    /// The acknowledge request that is in flight.
    pub open spec fn in_flight(self) -> DeleteRequestView {
        DeleteRequestView {
            queue_url: self.queue_url,
            receipt_handle: self.pending[0].receipt_handle->0,
        }
    }
}

/// Model of a [`CycleStep`].
pub enum CycleStepView {
    Acknowledge(AwaitingAckView, DeleteRequestView),
    Done(Result<(), QueueErrorView>),
}

/// The step a cycle takes when `rest` is what remains of its batch: it
/// acknowledges the first message of `rest` that has a receipt handle, or
/// ends in success when there is none.
pub open spec fn advance(queue_url: Seq<char>, rest: Seq<MessageView>) -> CycleStepView {
    let pending = skip_unacknowledgeable(rest);
    if pending.len() == 0 {
        CycleStepView::Done(Ok(()))
    } else {
        let next = AwaitingAckView { queue_url, pending };
        CycleStepView::Acknowledge(next, next.in_flight())
    }
}

/// The step of a cycle whose receive request came back with `result`.
pub open spec fn after_receive(
    queue_url: Seq<char>,
    result: Result<Seq<MessageView>, Seq<char>>,
) -> CycleStepView {
    match result {
        Ok(batch) => advance(queue_url, batch),
        Err(reason) => CycleStepView::Done(Err(QueueErrorView::Receive(reason))),
    }
}

/// The step of a cycle whose acknowledgment in flight came back with
/// `result`.
pub open spec fn after_acknowledge(
    cycle: AwaitingAckView,
    result: Result<(), Seq<char>>,
) -> CycleStepView {
    match result {
        Ok(_) => advance(cycle.queue_url, cycle.pending.drop_first()),
        Err(reason) => CycleStepView::Done(Err(QueueErrorView::Acknowledge(reason))),
    }
}

/// The receipt handles of a batch are that of its first message, if it has
/// one, and then those of the messages after it.
pub proof fn lemma_receipt_handles_first(batch: Seq<MessageView>)
    requires
        batch.len() > 0,
    ensures
        receipt_handles(batch) == match batch[0].receipt_handle {
            Some(handle) => seq![handle] + receipt_handles(batch.drop_first()),
            None => receipt_handles(batch.drop_first()),
        },
    decreases batch.len(),
{
    let tail = batch.drop_first();
    if batch.len() == 1 {
        assert(batch.drop_last() =~= tail);
        assert(receipt_handles(tail) =~= Seq::<Seq<char>>::empty());
        match batch[0].receipt_handle {
            Some(handle) => {
                assert(receipt_handles(batch) =~= seq![handle] + receipt_handles(tail));
            },
            None => {},
        }
    } else {
        let front = batch.drop_last();
        lemma_receipt_handles_first(front);
        assert(front.drop_first() =~= tail.drop_last());
        assert(tail.last() == batch.last());
        assert(front[0] == batch[0]);
        let inner = receipt_handles(front.drop_first());
        match (batch[0].receipt_handle, batch.last().receipt_handle) {
            (Some(first), Some(last)) => {
                assert((seq![first] + inner) + seq![last] =~= seq![first] + (inner + seq![last]));
            },
            _ => {},
        }
    }
}

/// What is left after the leading messages without a receipt handle are
/// dropped is a suffix of the batch that is empty or begins with a message
/// that has one, and it holds the same receipt handles.
pub proof fn lemma_skip_unacknowledgeable(batch: Seq<MessageView>)
    ensures
        skip_unacknowledgeable(batch).len() > 0 ==> skip_unacknowledgeable(
            batch,
        )[0].receipt_handle is Some,
        skip_unacknowledgeable(batch).len() <= batch.len(),
        skip_unacknowledgeable(batch) == batch.skip(
            batch.len() - skip_unacknowledgeable(batch).len(),
        ),
        receipt_handles(skip_unacknowledgeable(batch)) == receipt_handles(batch),
    decreases batch.len(),
{
    if batch.len() == 0 || batch[0].receipt_handle is Some {
        assert(batch.skip(0) =~= batch);
    } else {
        let rest = batch.drop_first();
        lemma_skip_unacknowledgeable(rest);
        lemma_receipt_handles_first(batch);
        let kept = skip_unacknowledgeable(rest);
        assert(rest.skip(rest.len() - kept.len()) =~= batch.skip(batch.len() - kept.len()));
    }
}

/// A batch that is empty or begins with a message that has a receipt handle
/// holds no receipt handle exactly when it is empty, and its first receipt
/// handle is that of its first message.
pub proof fn lemma_handles_of_ready(pending: Seq<MessageView>)
    requires
        pending.len() > 0 ==> pending[0].receipt_handle is Some,
    ensures
        receipt_handles(pending).len() == 0 <==> pending.len() == 0,
        pending.len() > 0 ==> receipt_handles(pending)[0] == pending[0].receipt_handle->0,
        pending.len() > 0 ==> receipt_handles(pending.drop_first()) == receipt_handles(
            pending,
        ).skip(1),
{
    if pending.len() > 0 {
        let first = pending[0].receipt_handle->0;
        let rest = receipt_handles(pending.drop_first());
        lemma_receipt_handles_first(pending);
        assert((seq![first] + rest).skip(1) =~= rest);
    }
}

/// Every receipt handle of a batch is the receipt handle of one of its
/// messages.
pub proof fn lemma_receipt_handle_was_delivered(batch: Seq<MessageView>, i: int)
    requires
        0 <= i < receipt_handles(batch).len(),
    ensures
        exists|j: int|
            0 <= j < batch.len() && (#[trigger] batch[j]).receipt_handle == Some(
                receipt_handles(batch)[i],
            ),
{
    let handle = receipt_handles(batch)[i];
    assert(receipt_handles(batch).contains(handle));
    batch.lemma_filter_map_contains(|message: MessageView| message.receipt_handle, handle);
    let found = choose|message: MessageView| #[trigger]
        batch.contains(message) && message.receipt_handle == Some(handle);
    let j = choose|j: int| 0 <= j < batch.len() && batch[j] == found;
    assert(batch[j].receipt_handle == Some(handle));
}

/// A batch in which no message has a receipt handle has no receipt handle
/// to acknowledge.
pub proof fn lemma_no_receipt_handle_no_acknowledgment(batch: Seq<MessageView>)
    requires
        forall|j: int| 0 <= j < batch.len() ==> (#[trigger] batch[j]).receipt_handle is None,
    ensures
        receipt_handles(batch).len() == 0,
    decreases batch.len(),
{
    if batch.len() > 0 {
        let front = batch.drop_last();
        assert forall|j: int| 0 <= j < front.len() implies (#[trigger] front[j]).receipt_handle
            is None by {
            assert(front[j] == batch[j]);
        }
        lemma_no_receipt_handle_no_acknowledgment(front);
        assert(batch.last() == batch[batch.len() - 1]);
    }
}

/// A step that sends an acknowledgment leaves the cycle well formed, on the
/// same queue, and the request is the one in flight.
pub proof fn lemma_advance_wf(queue_url: Seq<char>, rest: Seq<MessageView>)
    ensures
        advance(queue_url, rest) matches CycleStepView::Acknowledge(next, request) ==> next.wf()
            && next.queue_url == queue_url && request == next.in_flight(),
{
    lemma_skip_unacknowledgeable(rest);
}

/// A poll cycle whose receive request is in flight.
#[derive(Debug)]
pub struct AwaitingBatch {
    queue_url: String,
}

impl View for AwaitingBatch {
    type V = Seq<char>;

    /// The URL of the queue that is polled.
    closed spec fn view(&self) -> Seq<char> {
        self.queue_url@
    }
}

/// A poll cycle that has an acknowledgment in flight.
#[derive(Debug)]
pub struct AwaitingAck {
    queue_url: String,
    batch: Vec<Message>,
    cursor: usize,
}

impl View for AwaitingAck {
    type V = AwaitingAckView;

    closed spec fn view(&self) -> AwaitingAckView {
        AwaitingAckView {
            queue_url: self.queue_url@,
            pending: batch_view(self.batch@).skip(self.cursor as int),
        }
    }
}

/// What a poll cycle does next.
#[derive(Debug)]
pub enum CycleStep {
    /// Send the request; the cycle goes on when its answer is reported.
    Acknowledge(AwaitingAck, DeleteRequest),
    /// The cycle is over, with this result.
    Done(Result<(), QueueError>),
}

impl View for CycleStep {
    type V = CycleStepView;

    open spec fn view(&self) -> CycleStepView {
        match self {
            CycleStep::Acknowledge(next, request) => CycleStepView::Acknowledge(next@, request@),
            CycleStep::Done(result) => CycleStepView::Done(cycle_result_view(*result)),
        }
    }
}

impl AwaitingBatch {
    /// Begins a poll cycle on the queue at `queue_url`: returns the cycle and
    /// the receive request to send.
    pub fn begin(queue_url: &str) -> (started: (AwaitingBatch, ReceiveRequest))
        ensures
            started.0@ == queue_url@,
            started.1@ == long_poll(queue_url@),
    {
        (
            AwaitingBatch { queue_url: String::from_str(queue_url) },
            ReceiveRequest::long_poll(queue_url),
        )
    }

    /// The URL of the queue that is polled.
    pub fn queue_url(&self) -> (url: &str)
        ensures
            url@ == self@,
    {
        self.queue_url.as_str()
    }

    /// Takes what the receive request came back with: a failed receive ends
    /// the cycle with that error, a batch starts the acknowledgments.
    pub fn on_received(self, result: Result<Vec<Message>, String>) -> (step: CycleStep)
        ensures
            step@ == after_receive(self@, received_view(result)),
    {
        match result {
            Ok(batch) => {
                proof {
                    let all = batch_view(batch@);
                    assert(all.skip(0) =~= all);
                }
                advance_from(self.queue_url, batch, 0)
            },
            Err(reason) => CycleStep::Done(Err(QueueError::Receive(reason))),
        }
    }
}

impl AwaitingAck {
    #[verifier::type_invariant]
    spec fn inv(self) -> bool {
        &&& self.cursor < self.batch.len()
        &&& self.batch[self.cursor as int].receipt_handle is Some
    }

    /// The URL of the queue that is polled.
    pub fn queue_url(&self) -> (url: &str)
        ensures
            url@ == self@.queue_url,
    {
        self.queue_url.as_str()
    }

    /// Takes what the acknowledgment in flight came back with: a failure ends
    /// the cycle with that error and leaves the messages after it
    /// unacknowledged, a success moves on to the next message that has a
    /// receipt handle.
    pub fn on_acknowledged(self, result: Result<(), String>) -> (step: CycleStep)
        ensures
            step@ == after_acknowledge(self@, acknowledged_view(result)),
    {
        proof {
            use_type_invariant(&self);
        }
        match result {
            Ok(_) => {
                let from = self.cursor + 1;
                proof {
                    let all = batch_view(self.batch@);
                    assert(all.skip(self.cursor as int).drop_first() =~= all.skip(from as int));
                }
                advance_from(self.queue_url, self.batch, from)
            },
            Err(reason) => CycleStep::Done(Err(QueueError::Acknowledge(reason))),
        }
    }
}

/// Moves a cycle on to the first message at or after `from` that has a
/// receipt handle.
fn advance_from(queue_url: String, batch: Vec<Message>, from: usize) -> (step: CycleStep)
    requires
        from <= batch.len(),
    ensures
        step@ == advance(queue_url@, batch_view(batch@).skip(from as int)),
{
    let ghost all = batch_view(batch@);
    let mut cursor: usize = from;
    while cursor < batch.len() && batch[cursor].receipt_handle.is_none()
        invariant
            from <= cursor <= batch.len(),
            all == batch_view(batch@),
            skip_unacknowledgeable(all.skip(from as int)) == skip_unacknowledgeable(
                all.skip(cursor as int),
            ),
        decreases batch.len() - cursor,
    {
        proof {
            let here = all.skip(cursor as int);
            assert(here[0] == batch[cursor as int]@);
            assert(here.drop_first() =~= all.skip(cursor + 1));
        }
        cursor += 1;
    }
    let ghost pending = all.skip(cursor as int);
    if cursor < batch.len() {
        proof {
            assert(pending[0] == batch[cursor as int]@);
        }
        let handle = batch[cursor].receipt_handle.as_ref().unwrap();
        let request = DeleteRequest::new(queue_url.as_str(), handle.as_str());
        CycleStep::Acknowledge(AwaitingAck { queue_url, batch, cursor }, request)
    } else {
        CycleStep::Done(Ok(()))
    }
}

} // verus!
