//! Messages, requests and errors exchanged with the queue.

use vstd::prelude::*;
use vstd::string::StringExecFns;

verus! {

/// Seconds a receive request waits for a message before it returns empty.
pub const LONG_POLL_WAIT_SECONDS: i64 = 10;

/// A message as the queue delivered it.
#[derive(Clone, Debug, PartialEq, Eq)]
pub struct Message {
    pub body: String,
    /// Token that acknowledges this delivery; a message without one cannot
    /// be acknowledged.
    pub receipt_handle: Option<String>,
}

/// Mathematical model of a [`Message`].
pub struct MessageView {
    pub body: Seq<char>,
    pub receipt_handle: Option<Seq<char>>,
}

impl View for Message {
    type V = MessageView;

    open spec fn view(&self) -> MessageView {
        MessageView {
            body: self.body@,
            receipt_handle: match self.receipt_handle {
                Some(h) => Some(h@),
                None => None,
            },
        }
    }
}

/// The models of the messages of a batch, in batch order.
pub open spec fn batch_view(batch: Seq<Message>) -> Seq<MessageView> {
    Seq::new(batch.len(), |i: int| batch[i]@)
}

/// A long-poll receive request.
#[derive(Clone, Debug, PartialEq, Eq)]
pub struct ReceiveRequest {
    pub queue_url: String,
    pub wait_time_seconds: i64,
}

/// Mathematical model of a [`ReceiveRequest`].
pub struct ReceiveRequestView {
    pub queue_url: Seq<char>,
    pub wait_time_seconds: int,
}

impl View for ReceiveRequest {
    type V = ReceiveRequestView;

    open spec fn view(&self) -> ReceiveRequestView {
        ReceiveRequestView {
            queue_url: self.queue_url@,
            wait_time_seconds: self.wait_time_seconds as int,
        }
    }
}

/// The one receive request a worker ever sends to the queue at `queue_url`.
pub open spec fn long_poll(queue_url: Seq<char>) -> ReceiveRequestView {
    ReceiveRequestView { queue_url, wait_time_seconds: LONG_POLL_WAIT_SECONDS as int }
}

/// A request to acknowledge, and thereby delete, one delivered message.
#[derive(Clone, Debug, PartialEq, Eq)]
pub struct DeleteRequest {
    pub queue_url: String,
    pub receipt_handle: String,
}

/// Mathematical model of a [`DeleteRequest`].
pub struct DeleteRequestView {
    pub queue_url: Seq<char>,
    pub receipt_handle: Seq<char>,
}

impl View for DeleteRequest {
    type V = DeleteRequestView;

    open spec fn view(&self) -> DeleteRequestView {
        DeleteRequestView { queue_url: self.queue_url@, receipt_handle: self.receipt_handle@ }
    }
}

/// Why a poll cycle failed: the request that failed, with the reason the
/// queue client gave.
#[derive(Clone, Debug, PartialEq, Eq)]
pub enum QueueError {
    Receive(String),
    Acknowledge(String),
}

/// Mathematical model of a [`QueueError`].
pub enum QueueErrorView {
    Receive(Seq<char>),
    Acknowledge(Seq<char>),
}

impl View for QueueError {
    type V = QueueErrorView;

    open spec fn view(&self) -> QueueErrorView {
        match self {
            QueueError::Receive(reason) => QueueErrorView::Receive(reason@),
            QueueError::Acknowledge(reason) => QueueErrorView::Acknowledge(reason@),
        }
    }
}

/// Model of what a receive request came back with.
pub open spec fn received_view(result: Result<Vec<Message>, String>) -> Result<
    Seq<MessageView>,
    Seq<char>,
> {
    match result {
        Ok(batch) => Ok(batch_view(batch@)),
        Err(reason) => Err(reason@),
    }
}

/// Model of what an acknowledge request came back with.
pub open spec fn acknowledged_view(result: Result<(), String>) -> Result<(), Seq<char>> {
    match result {
        Ok(_) => Ok(()),
        Err(reason) => Err(reason@),
    }
}

/// Model of the result of one poll cycle.
pub open spec fn cycle_result_view(result: Result<(), QueueError>) -> Result<(), QueueErrorView> {
    match result {
        Ok(_) => Ok(()),
        Err(error) => Err(error@),
    }
}

impl ReceiveRequest {
    /// The long-poll receive request for the queue at `queue_url`.
    pub fn long_poll(queue_url: &str) -> (request: ReceiveRequest)
        ensures
            request@ == long_poll(queue_url@),
    {
        ReceiveRequest {
            queue_url: String::from_str(queue_url),
            wait_time_seconds: LONG_POLL_WAIT_SECONDS,
        }
    }
}

impl DeleteRequest {
    /// The request that acknowledges the delivery named by `receipt_handle`.
    pub fn new(queue_url: &str, receipt_handle: &str) -> (request: DeleteRequest)
        ensures
            request@ == (DeleteRequestView {
                queue_url: queue_url@,
                receipt_handle: receipt_handle@,
            }),
    {
        DeleteRequest {
            queue_url: String::from_str(queue_url),
            receipt_handle: String::from_str(receipt_handle),
        }
    }
}

} // verus!
