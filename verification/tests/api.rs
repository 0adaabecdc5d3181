use distributed_queue::aging::AgingFactor;
use distributed_queue::api::{DequeueResponse, QueueNode, UpdateRequest};
use distributed_queue::consumer_state::{ConsumerState, PollJobResponse};
use distributed_queue::error::ApiError;
use distributed_queue::job::Job;
use distributed_queue::leader::StoreError;
use distributed_queue::min_heap::HeapNode;
use distributed_queue::text::{around_number, decimal, parse_amount};

#[test]
fn dequeue_on_empty_heap() {
    let mut node = QueueNode::new(AgingFactor::half());
    assert_eq!(node.dequeue(), Err(ApiError::EmptyHeapError));
    assert_eq!(node.now(), 0);
    assert_eq!(node.dequeue_next(), Err(ApiError::EmptyHeapError));
    assert_eq!(node.dequeue_amount("3"), Err(ApiError::EmptyHeapError));
    // The empty heap is reported before the amount is looked at.
    assert_eq!(node.dequeue_amount("x"), Err(ApiError::EmptyHeapError));
    assert_eq!(node.now(), 0);
}

#[test]
fn enqueue_then_dequeue() {
    let mut node = QueueNode::new(AgingFactor::half());
    let created = node.enqueue(5, Ok(17)).unwrap();
    assert_eq!(created.job_id, 17);
    assert_eq!(created.message, "Job with job_id=17 successfully added to database");
    assert_eq!(node.now(), 1);
    assert_eq!(
        *node.heap().heap(),
        vec![HeapNode { job_id: 17, priority: 5, effective_priority: 5, enqueue_time: 0 }]
    );
    let _ = node.enqueue(1, Ok(18)).unwrap();
    let top = node.dequeue().unwrap();
    assert_eq!((top.job_id, top.priority, top.enqueue_time), (18, 1, 1));
    assert_eq!(node.now(), 3);
    assert_eq!(node.dequeue().unwrap().job_id, 17);
    assert_eq!(node.dequeue(), Err(ApiError::EmptyHeapError));
    assert_eq!(node.now(), 4);
}

#[test]
fn enqueue_with_failed_store() {
    let mut node = QueueNode::new(AgingFactor::half());
    assert_eq!(
        node.enqueue(5, Err(StoreError::Unavailable)),
        Err(ApiError::DatabaseError("Error creating row".to_string()))
    );
    assert!(node.heap().is_empty());
    assert_eq!(node.now(), 0);
}

#[test]
fn batch_dequeue() {
    let mut node = QueueNode::new(AgingFactor::none());
    for (id, priority) in [(1u64, 4u32), (2, 2), (3, 9)] {
        node.enqueue(priority, Ok(id)).unwrap();
    }
    assert_eq!(
        node.dequeue_amount("two"),
        Err(ApiError::InternalServerError("Provided non numerical amount".to_string()))
    );
    assert_eq!(node.now(), 3);
    assert_eq!(node.dequeue_amount("4"), Ok(4));
    assert_eq!(node.now(), 4);
    assert_eq!(node.dequeue_next().unwrap().job_id, 2);
    assert_eq!(node.dequeue_next().unwrap().job_id, 1);
    assert_eq!(node.dequeue_next().unwrap().job_id, 3);
    // The heap ran empty before the batch was full.
    assert_eq!(node.dequeue_next(), Err(ApiError::EmptyHeapError));
    assert_eq!(node.now(), 4);
}

#[test]
fn update_changes_heap_before_store() {
    let mut node = QueueNode::new(AgingFactor::half());
    node.enqueue(5, Ok(1)).unwrap();
    node.enqueue(6, Ok(2)).unwrap();
    let request = UpdateRequest { priority: 1, job_id: 2 };
    assert!(node.update(&request));
    assert_eq!(node.heap().peek().unwrap().job_id, 2);
    assert_eq!(node.now(), 2);
    // The store fails: the heap keeps the new priority.
    assert_eq!(
        node.update_stored(&request, Err(StoreError::NotFound)),
        Err(ApiError::DatabaseError("Error updating database".to_string()))
    );
    assert_eq!(node.heap().peek().unwrap().job_id, 2);
    assert_eq!(node.now(), 2);
    let answer = node.update_stored(&request, Ok(())).unwrap();
    assert_eq!(answer.message, "Job with job_id=2 has been successfully updated");
    assert_eq!(node.now(), 3);
    // Effective priorities were brought to time 2.
    assert_eq!(
        *node.heap().heap(),
        vec![
            HeapNode { job_id: 2, priority: 1, effective_priority: 1, enqueue_time: 1 },
            HeapNode { job_id: 1, priority: 5, effective_priority: 4, enqueue_time: 0 },
        ]
    );
}

#[test]
fn update_of_unknown_job_is_a_no_op_on_the_heap() {
    let mut node = QueueNode::new(AgingFactor::half());
    node.enqueue(5, Ok(1)).unwrap();
    let before: Vec<HeapNode> = node.heap().heap().clone();
    assert!(!node.update(&UpdateRequest { priority: 1, job_id: 99 }));
    assert_eq!(*node.heap().heap(), before);
}

#[test]
fn dequeue_response_from_row() {
    assert_eq!(
        DequeueResponse::from_row(Ok(Job::new(3, 4, vec![5]))),
        Ok(DequeueResponse { job_id: 3, priority: 4, payload: vec![5] })
    );
    for e in [StoreError::NotFound, StoreError::Unavailable] {
        assert_eq!(
            DequeueResponse::from_row(Err(e)),
            Err(ApiError::DatabaseError("Error database SELECT query failed.".to_string()))
        );
    }
}

#[test]
fn api_errors_map_to_status_and_body() {
    let db = ApiError::DatabaseError("Error creating query".to_string());
    let internal = ApiError::InternalServerError("Provided non numerical amount".to_string());
    let empty = ApiError::EmptyHeapError;
    for e in [&db, &internal, &empty] {
        assert_eq!(e.status(), 500);
    }
    assert_eq!(db.body(), "DatabaseError: Error creating query");
    assert_eq!(internal.body(), "Provided non numerical amount");
    assert_eq!(empty.body(), "EmptyHeapError");
    assert_eq!(db.message(), "Database Error: Error creating query");
    assert_eq!(internal.message(), "Internal Server Error: Provided non numerical amount");
    assert_eq!(empty.message(), "Empty Heap Error");
    assert_eq!(
        ApiError::from_store(StoreError::Unavailable, "x"),
        ApiError::DatabaseError("x".to_string())
    );
}

#[test]
fn amounts_are_decimal_numbers() {
    assert_eq!(parse_amount("0"), Some(0));
    assert_eq!(parse_amount("7"), Some(7));
    assert_eq!(parse_amount("007"), Some(7));
    assert_eq!(parse_amount("+12"), Some(12));
    assert_eq!(parse_amount("1234567890"), Some(1234567890));
    assert_eq!(parse_amount("18446744073709551615"), Some(u64::MAX));
    assert_eq!(parse_amount("18446744073709551616"), None);
    assert_eq!(parse_amount("99999999999999999999999"), None);
    assert_eq!(parse_amount(""), None);
    assert_eq!(parse_amount("+"), None);
    assert_eq!(parse_amount("-1"), None);
    assert_eq!(parse_amount("1 "), None);
    assert_eq!(parse_amount(" 1"), None);
    assert_eq!(parse_amount("1.5"), None);
    assert_eq!(parse_amount("12a"), None);
    assert_eq!(parse_amount("++1"), None);
    assert_eq!(parse_amount("１"), None);
    for n in [0u64, 9, 10, 99, 100, 65_535, u64::MAX] {
        assert_eq!(parse_amount(&n.to_string()), Some(n));
        assert_eq!(parse_amount(&n.to_string()), n.to_string().parse::<u64>().ok());
    }
}

#[test]
fn numbers_are_written_in_decimal() {
    assert_eq!(decimal(0), "0");
    assert_eq!(decimal(7), "7");
    assert_eq!(decimal(10), "10");
    assert_eq!(decimal(1234567890), "1234567890");
    assert_eq!(decimal(u64::MAX), "18446744073709551615");
    assert_eq!(around_number("<", 42, ">"), "<42>");
    for n in [0u64, 5, 19, 100, 1_000_000_007, u64::MAX - 1] {
        assert_eq!(parse_amount(&decimal(n)), Some(n));
    }
}

#[test]
fn consumer_collects_polled_jobs() {
    let mut consumer = ConsumerState::new(3, vec!["n1".to_string(), "n2".to_string()], 30);
    assert_eq!(consumer.consumer_id(), 3);
    assert_eq!(consumer.nodes().len(), 2);
    assert_eq!(consumer.timeout(), 30);
    consumer.insert_job(Job::new(10, 5, vec![]));
    assert_eq!(consumer.now(), 1);
    let responses = vec![
        Some(PollJobResponse { success: true, job: Some(Job::new(11, 2, vec![1])) }),
        None,
        Some(PollJobResponse { success: false, job: Some(Job::new(12, 0, vec![])) }),
        Some(PollJobResponse { success: true, job: None }),
        Some(PollJobResponse { success: true, job: Some(Job::new(13, 7, vec![])) }),
    ];
    consumer.get_jobs(&responses);
    assert_eq!(consumer.now(), 3);
    assert_eq!(
        *consumer.heap().heap(),
        vec![
            HeapNode { job_id: 11, priority: 2, effective_priority: 2, enqueue_time: 1 },
            HeapNode { job_id: 10, priority: 5, effective_priority: 5, enqueue_time: 0 },
            HeapNode { job_id: 13, priority: 7, effective_priority: 7, enqueue_time: 2 },
        ]
    );
}

#[test]
fn dequeue_ages_what_stays() {
    let mut node = QueueNode::new(AgingFactor::half());
    node.enqueue(1, Ok(1)).unwrap();
    node.enqueue(9, Ok(2)).unwrap();
    node.enqueue(9, Ok(3)).unwrap();
    for _ in 0..7 {
        node.increment_time();
    }
    assert_eq!(node.now(), 10);
    assert_eq!(node.dequeue().unwrap().job_id, 1);
    // Jobs 2 and 3 entered at times 1 and 2; at time 10 they have aged by 4.
    assert_eq!(
        *node.heap().heap(),
        vec![
            HeapNode { job_id: 3, priority: 9, effective_priority: 5, enqueue_time: 2 },
            HeapNode { job_id: 2, priority: 9, effective_priority: 5, enqueue_time: 1 },
        ]
    );
    assert_eq!(node.now(), 11);
    assert_eq!(node.dequeue_amount("1"), Ok(1));
    // At time 11 job 2 has aged by 5 and moves to the top.
    assert_eq!(
        *node.heap().heap(),
        vec![
            HeapNode { job_id: 2, priority: 9, effective_priority: 4, enqueue_time: 1 },
            HeapNode { job_id: 3, priority: 9, effective_priority: 5, enqueue_time: 2 },
        ]
    );
    assert_eq!(node.now(), 12);
}

#[test]
fn committed_job_enters_queue_node() {
    let mut node = QueueNode::new(AgingFactor::half());
    node.commit_job(4, 77);
    assert_eq!(node.now(), 1);
    assert_eq!(
        *node.heap().heap(),
        vec![HeapNode { job_id: 77, priority: 4, effective_priority: 4, enqueue_time: 0 }]
    );
}

#[test]
fn heap_node_in_words() {
    let node = HeapNode::new(42, 7, 3);
    assert_eq!(node.describe(), "HeapNode {\n\tpriority: 7\n\tjob_id: 42\n}\n");
}
