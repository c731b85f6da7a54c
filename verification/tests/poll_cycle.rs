use sqs_worker::message::{
    DeleteRequest, Message, QueueError, ReceiveRequest, LONG_POLL_WAIT_SECONDS,
};
use sqs_worker::poll::{AwaitingBatch, CycleStep};

fn message(body: &str, receipt_handle: Option<&str>) -> Message {
    Message { body: body.to_string(), receipt_handle: receipt_handle.map(|h| h.to_string()) }
}

/// Runs one cycle on `batch`; the acknowledgment of each handle in `failing`
/// fails. Returns the handles sent, in order, and the cycle's result.
fn run_cycle(batch: Vec<Message>, failing: &[&str]) -> (Vec<String>, Result<(), QueueError>) {
    let (cycle, _) = AwaitingBatch::begin("https://queue.example/jobs");
    let mut sent = Vec::new();
    let mut step = cycle.on_received(Ok(batch));
    loop {
        match step {
            CycleStep::Done(result) => return (sent, result),
            CycleStep::Acknowledge(next, request) => {
                assert_eq!(request.queue_url, "https://queue.example/jobs");
                let failed = failing.contains(&request.receipt_handle.as_str());
                sent.push(request.receipt_handle.clone());
                step = if failed {
                    next.on_acknowledged(Err(format!("cannot delete {}", request.receipt_handle)))
                } else {
                    next.on_acknowledged(Ok(()))
                };
            }
        }
    }
}

#[test]
fn long_poll_waits_ten_seconds() {
    assert_eq!(LONG_POLL_WAIT_SECONDS, 10);
    let request = ReceiveRequest::long_poll("https://queue.example/jobs");
    assert_eq!(
        request,
        ReceiveRequest { queue_url: "https://queue.example/jobs".to_string(), wait_time_seconds: 10 }
    );
}

#[test]
fn delete_request_names_queue_and_handle() {
    let request = DeleteRequest::new("https://queue.example/jobs", "R1");
    assert_eq!(request.queue_url, "https://queue.example/jobs");
    assert_eq!(request.receipt_handle, "R1");
}

#[test]
fn begin_sends_the_long_poll() {
    let (cycle, request) = AwaitingBatch::begin("https://queue.example/jobs");
    assert_eq!(cycle.queue_url(), "https://queue.example/jobs");
    assert_eq!(request.queue_url, "https://queue.example/jobs");
    assert_eq!(request.wait_time_seconds, 10);
}

#[test]
fn empty_batch_ends_in_success() {
    let (sent, result) = run_cycle(Vec::new(), &[]);
    assert!(sent.is_empty());
    assert_eq!(result, Ok(()));
}

#[test]
fn failed_receive_ends_the_cycle() {
    let (cycle, _) = AwaitingBatch::begin("https://queue.example/jobs");
    match cycle.on_received(Err("timed out".to_string())) {
        CycleStep::Done(result) => {
            assert_eq!(result, Err(QueueError::Receive("timed out".to_string())))
        }
        CycleStep::Acknowledge(_, request) => panic!("unexpected request {:?}", request),
    }
}

#[test]
fn acknowledges_in_order_of_delivery() {
    let batch = vec![
        message("a", Some("R1")),
        message("b", Some("R2")),
        message("c", Some("R3")),
        message("d", Some("R4")),
    ];
    let (sent, result) = run_cycle(batch, &[]);
    assert_eq!(sent, vec!["R1", "R2", "R3", "R4"]);
    assert_eq!(result, Ok(()));
}

#[test]
fn same_handle_twice_is_acknowledged_twice() {
    let batch = vec![message("a", Some("R1")), message("b", Some("R1"))];
    let (sent, result) = run_cycle(batch, &[]);
    assert_eq!(sent, vec!["R1", "R1"]);
    assert_eq!(result, Ok(()));
}

#[test]
fn message_without_handle_is_skipped() {
    let batch = vec![
        message("a", None),
        message("b", Some("R2")),
        message("c", None),
        message("d", None),
        message("e", Some("R5")),
        message("f", None),
    ];
    let (sent, result) = run_cycle(batch, &[]);
    assert_eq!(sent, vec!["R2", "R5"]);
    assert_eq!(result, Ok(()));
}

#[test]
fn batch_without_any_handle_sends_nothing() {
    let batch = vec![message("a", None), message("b", None)];
    let (sent, result) = run_cycle(batch, &[]);
    assert!(sent.is_empty());
    assert_eq!(result, Ok(()));
}

#[test]
fn empty_handle_is_still_a_handle() {
    let batch = vec![message("a", Some(""))];
    let (sent, result) = run_cycle(batch, &[]);
    assert_eq!(sent, vec![""]);
    assert_eq!(result, Ok(()));
}

#[test]
fn second_of_three_fails() {
    let batch =
        vec![message("a", Some("R1")), message("b", Some("R2")), message("c", Some("R3"))];
    let (sent, result) = run_cycle(batch, &["R2"]);
    assert_eq!(sent, vec!["R1", "R2"]);
    assert_eq!(result, Err(QueueError::Acknowledge("cannot delete R2".to_string())));
}

#[test]
fn first_failure_stops_the_cycle() {
    let batch =
        vec![message("a", Some("R1")), message("b", Some("R2")), message("c", Some("R3"))];
    let (sent, result) = run_cycle(batch, &["R1", "R3"]);
    assert_eq!(sent, vec!["R1"]);
    assert_eq!(result, Err(QueueError::Acknowledge("cannot delete R1".to_string())));
}

#[test]
fn last_failure_fails_the_cycle() {
    let batch = vec![message("a", Some("R1")), message("b", None), message("c", Some("R3"))];
    let (sent, result) = run_cycle(batch, &["R3"]);
    assert_eq!(sent, vec!["R1", "R3"]);
    assert_eq!(result, Err(QueueError::Acknowledge("cannot delete R3".to_string())));
}

#[test]
fn request_in_flight_is_on_the_cycles_queue() {
    let (cycle, _) = AwaitingBatch::begin("https://queue.example/other");
    match cycle.on_received(Ok(vec![message("a", Some("R1"))])) {
        CycleStep::Acknowledge(next, request) => {
            assert_eq!(next.queue_url(), "https://queue.example/other");
            assert_eq!(request, DeleteRequest::new("https://queue.example/other", "R1"));
        }
        CycleStep::Done(result) => panic!("cycle ended with {:?}", result),
    }
}
