use grip::queue::{CompletionRecord, Queue, Stage};
use grip::request::{Outcome, Request, RequestOptions, RequestType, Response};

fn request(uri: &str) -> Request {
    Request {
        http_type: RequestType::Get,
        uri: uri.to_string(),
        body: Vec::new(),
        options: RequestOptions::empty(),
    }
}

fn success(status: u16) -> Outcome {
    Outcome::Success(Response { body: b"ok".to_vec(), status_code: status })
}

fn finish_next(queue: &mut Queue<u32>, outcome: Outcome) -> isize {
    let job = queue.next_job().unwrap();
    let handle = job.handle;
    queue.complete(CompletionRecord { handle, on_complete: job.on_complete, outcome });
    handle
}

#[test]
fn submit_returns_the_announced_handle() {
    let mut queue: Queue<u32> = Queue::new();
    assert_eq!(queue.number_of_pending_requests(), 0);
    let first = queue.send_request(request("http://a/"), 10);
    let second = queue.send_request(request("http://b/"), 20);
    assert_eq!(first, 1);
    assert_eq!(second, 2);
    assert_eq!(queue.number_of_pending_requests(), 2);
    assert!(queue.is_pending(first));
    assert_eq!(queue.stage(first), Some(Stage::Queued));
}

#[test]
fn jobs_are_dispatched_in_submission_order() {
    let mut queue: Queue<u32> = Queue::new();
    let first = queue.send_request(request("http://a/"), 10);
    let second = queue.send_request(request("http://b/"), 20);
    let job = queue.next_job().unwrap();
    assert_eq!(job.handle, first);
    assert_eq!(job.on_complete, 10);
    assert_eq!(job.request.uri, "http://a/");
    assert_eq!(queue.stage(first), Some(Stage::Dispatched));
    assert_eq!(queue.stage(second), Some(Stage::Queued));
    assert_eq!(queue.next_job().unwrap().handle, second);
    assert!(queue.next_job().is_none());
}

#[test]
fn completion_is_delivered_once() {
    let mut queue: Queue<u32> = Queue::new();
    let handle = queue.send_request(request("http://a/"), 10);
    finish_next(&mut queue, success(200));
    assert_eq!(queue.number_of_pending_requests(), 1);
    let deliveries = queue.execute_queue_with_limit(5, 0);
    assert_eq!(deliveries.len(), 1);
    assert_eq!(deliveries[0].handle, handle);
    assert_eq!(deliveries[0].on_complete, 10);
    assert_eq!(deliveries[0].outcome, success(200));
    assert_eq!(queue.number_of_pending_requests(), 0);
    assert!(!queue.is_pending(handle));
    assert!(queue.execute_queue_with_limit(5, 0).is_empty());
}

#[test]
fn deliveries_come_in_arrival_order_not_submission_order() {
    let mut queue: Queue<u32> = Queue::new();
    let first = queue.send_request(request("http://a/"), 10);
    let second = queue.send_request(request("http://b/"), 20);
    let job_a = queue.next_job().unwrap();
    let job_b = queue.next_job().unwrap();
    queue.complete(CompletionRecord {
        handle: job_b.handle,
        on_complete: job_b.on_complete,
        outcome: success(201),
    });
    queue.complete(CompletionRecord {
        handle: job_a.handle,
        on_complete: job_a.on_complete,
        outcome: success(200),
    });
    let deliveries = queue.execute_queue_with_limit(10, 0);
    assert_eq!(deliveries.len(), 2);
    assert_eq!(deliveries[0].handle, second);
    assert_eq!(deliveries[1].handle, first);
}

#[test]
fn cancel_before_completion_suppresses_the_callback() {
    let mut queue: Queue<u32> = Queue::new();
    let handle = queue.send_request(request("http://a/"), 10);
    assert!(queue.cancel(handle));
    assert_eq!(queue.number_of_pending_requests(), 0);
    finish_next(&mut queue, success(200));
    assert!(queue.execute_queue_with_limit(10, 0).is_empty());
    assert!(queue.execute_queue_with_limit(10, 0).is_empty());
}

#[test]
fn cancel_after_completion_but_before_drain_suppresses_the_callback() {
    let mut queue: Queue<u32> = Queue::new();
    let first = queue.send_request(request("http://a/"), 10);
    let second = queue.send_request(request("http://b/"), 20);
    finish_next(&mut queue, success(200));
    finish_next(&mut queue, success(200));
    assert!(queue.cancel(first));
    let deliveries = queue.execute_queue_with_limit(10, 0);
    assert_eq!(deliveries.len(), 1);
    assert_eq!(deliveries[0].handle, second);
}

#[test]
fn cancel_of_unknown_handle_is_not_found() {
    let mut queue: Queue<u32> = Queue::new();
    assert!(!queue.cancel(1));
    let handle = queue.send_request(request("http://a/"), 10);
    assert!(!queue.cancel(handle + 1));
    assert!(queue.cancel(handle));
    assert!(!queue.cancel(handle));
}

#[test]
fn drain_respects_the_limit() {
    let mut queue: Queue<u32> = Queue::new();
    for i in 0..7u32 {
        queue.send_request(request("http://a/"), i);
    }
    for _ in 0..7 {
        finish_next(&mut queue, success(200));
    }
    let first = queue.execute_queue_with_limit(3, 0);
    assert_eq!(first.len(), 3);
    assert_eq!(first[0].on_complete, 0);
    assert_eq!(first[2].on_complete, 2);
    let none = queue.execute_queue_with_limit(0, 0);
    assert!(none.is_empty());
    let second = queue.execute_queue_with_limit(3, 0);
    assert_eq!(second.len(), 3);
    assert_eq!(second[0].on_complete, 3);
    let third = queue.execute_queue_with_limit(3, 0);
    assert_eq!(third.len(), 1);
    assert_eq!(third[0].on_complete, 6);
}

#[test]
fn cancelled_records_count_against_the_limit() {
    let mut queue: Queue<u32> = Queue::new();
    let first = queue.send_request(request("http://a/"), 1);
    queue.send_request(request("http://b/"), 2);
    queue.send_request(request("http://c/"), 3);
    for _ in 0..3 {
        finish_next(&mut queue, success(200));
    }
    queue.cancel(first);
    let deliveries = queue.execute_queue_with_limit(2, 0);
    assert_eq!(deliveries.len(), 1);
    assert_eq!(deliveries[0].on_complete, 2);
    let rest = queue.execute_queue_with_limit(2, 0);
    assert_eq!(rest.len(), 1);
    assert_eq!(rest[0].on_complete, 3);
}

#[test]
fn hundred_requests_take_ten_drains_of_ten() {
    let mut queue: Queue<usize> = Queue::new();
    for i in 0..100usize {
        queue.send_request(request("http://always-ok/"), i);
    }
    while let Some(job) = queue.next_job() {
        queue.complete(CompletionRecord {
            handle: job.handle,
            on_complete: job.on_complete,
            outcome: success(200),
        });
    }
    let mut calls = vec![0u32; 100];
    let mut drains = 0;
    while queue.number_of_pending_requests() > 0 {
        let deliveries = queue.execute_queue_with_limit(10, 0);
        assert_eq!(deliveries.len(), 10);
        for delivery in deliveries {
            assert_eq!(delivery.outcome, success(200));
            calls[delivery.on_complete] += 1;
        }
        drains += 1;
    }
    assert_eq!(drains, 10);
    assert!(calls.iter().all(|&n| n == 1));
    assert!(queue.execute_queue_with_limit(10, 0).is_empty());
}

#[test]
fn timeout_outcome_is_delivered_once_as_timeout() {
    let mut queue: Queue<u32> = Queue::new();
    let handle = queue.send_request(request("http://slow/"), 1);
    finish_next(&mut queue, Outcome::Timeout);
    let deliveries = queue.execute_queue_with_limit(10, 0);
    assert_eq!(deliveries.len(), 1);
    assert_eq!(deliveries[0].handle, handle);
    assert_eq!(deliveries[0].outcome, Outcome::Timeout);
    assert_ne!(deliveries[0].outcome, success(200));
    assert!(queue.execute_queue_with_limit(10, 0).is_empty());
}

#[test]
fn transport_error_is_delivered_as_data() {
    let mut queue: Queue<u32> = Queue::new();
    queue.send_request(request("http://down/"), 1);
    finish_next(&mut queue, Outcome::TransportError("connection refused".to_string()));
    let deliveries = queue.execute_queue_with_limit(10, 0);
    assert_eq!(deliveries.len(), 1);
    assert_eq!(deliveries[0].outcome, Outcome::TransportError("connection refused".to_string()));
}

#[test]
fn cancel_all_silences_outstanding_requests() {
    let mut queue: Queue<u32> = Queue::new();
    for i in 0..5u32 {
        queue.send_request(request("http://a/"), i);
    }
    finish_next(&mut queue, success(200));
    finish_next(&mut queue, success(200));
    queue.cancel_all();
    assert_eq!(queue.number_of_pending_requests(), 0);
    while queue.next_job().is_some() {}
    assert!(queue.execute_queue_with_limit(100, 0).is_empty());
    let late = queue.send_request(request("http://b/"), 9);
    assert_eq!(late, 6);
    finish_next(&mut queue, success(204));
    let deliveries = queue.execute_queue_with_limit(100, 0);
    assert_eq!(deliveries.len(), 1);
    assert_eq!(deliveries[0].handle, late);
}

#[test]
fn a_second_record_for_one_handle_is_discarded() {
    let mut queue: Queue<u32> = Queue::new();
    let handle = queue.send_request(request("http://a/"), 1);
    queue.complete(CompletionRecord { handle, on_complete: 1, outcome: success(200) });
    queue.complete(CompletionRecord { handle, on_complete: 1, outcome: success(500) });
    let deliveries = queue.execute_queue_with_limit(10, 0);
    assert_eq!(deliveries.len(), 1);
    assert_eq!(deliveries[0].outcome, success(200));
}

#[test]
fn drain_records_the_retry_delay() {
    let mut queue: Queue<u32> = Queue::new();
    assert_eq!(queue.retry_delay(), 0);
    queue.execute_queue_with_limit(1, 250);
    assert_eq!(queue.retry_delay(), 250);
}

#[test]
fn failures_are_classified() {
    assert_eq!(Outcome::from_failure(true, "slow".to_string()), Outcome::Timeout);
    assert_eq!(
        Outcome::from_failure(false, "refused".to_string()),
        Outcome::TransportError("refused".to_string())
    );
    assert_eq!(Outcome::from_response(201, vec![1, 2]), Outcome::Success(Response { body: vec![1, 2], status_code: 201 }));
}

#[test]
fn option_sets_are_copied_by_value() {
    let mut options = RequestOptions::new(Some(30));
    assert_eq!(options.timeout, Some(30));
    assert!(options.headers.is_empty());
    options.headers.push(("A".to_string(), "1".to_string()));
    let copy = options.duplicate();
    options.headers.push(("B".to_string(), "2".to_string()));
    options.timeout = None;
    assert_eq!(copy.timeout, Some(30));
    assert_eq!(copy.headers, vec![("A".to_string(), "1".to_string())]);
    assert_eq!(RequestOptions::empty(), RequestOptions { headers: Vec::new(), timeout: None });
}
