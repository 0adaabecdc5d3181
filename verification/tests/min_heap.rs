use distributed_queue::aging::AgingFactor;
use distributed_queue::min_heap::{HeapNode, MinHeap};

#[test]
fn test_heap_insert() {
    let mut min_heap: MinHeap = MinHeap::new(AgingFactor::none());
    // priority, job_id, timestamp
    min_heap.insert(5, 1, 0);
    assert_eq!(*min_heap.heap(), vec![HeapNode::new(1, 5, 0)]);

    min_heap.insert(3, 2, 0);
    assert_eq!(
        *min_heap.heap(),
        vec![HeapNode::new(2, 3, 0), HeapNode::new(1, 5, 0)]
    );

    min_heap.insert(2, 3, 0);
    assert_eq!(
        *min_heap.heap(),
        vec![
            HeapNode::new(3, 2, 0),
            HeapNode::new(1, 5, 0),
            HeapNode::new(2, 3, 0)
        ]
    );

    min_heap.insert(1, 4, 0);
    assert_eq!(
        *min_heap.heap(),
        vec![
            HeapNode::new(4, 1, 0),
            HeapNode::new(3, 2, 0),
            HeapNode::new(2, 3, 0),
            HeapNode::new(1, 5, 0)
        ]
    );

    min_heap.insert(4, 5, 0);
    assert_eq!(
        *min_heap.heap(),
        vec![
            HeapNode::new(4, 1, 0),
            HeapNode::new(3, 2, 0),
            HeapNode::new(2, 3, 0),
            HeapNode::new(1, 5, 0),
            HeapNode::new(5, 4, 0)
        ]
    );

    min_heap.insert(2, 6, 0);
    assert_eq!(
        *min_heap.heap(),
        vec![
            HeapNode::new(4, 1, 0),
            HeapNode::new(3, 2, 0),
            HeapNode::new(6, 2, 0),
            HeapNode::new(1, 5, 0),
            HeapNode::new(5, 4, 0),
            HeapNode::new(2, 3, 0)
        ]
    );

    min_heap.insert(2, 7, 0);
    assert_eq!(
        *min_heap.heap(),
        vec![
            HeapNode::new(4, 1, 0),
            HeapNode::new(3, 2, 0),
            HeapNode::new(6, 2, 0),
            HeapNode::new(1, 5, 0),
            HeapNode::new(5, 4, 0),
            HeapNode::new(2, 3, 0),
            HeapNode::new(7, 2, 0)
        ]
    );

    min_heap.insert(2, 8, 0);
    assert_eq!(
        *min_heap.heap(),
        vec![
            HeapNode::new(4, 1, 0),
            HeapNode::new(3, 2, 0),
            HeapNode::new(6, 2, 0),
            HeapNode::new(8, 2, 0),
            HeapNode::new(5, 4, 0),
            HeapNode::new(2, 3, 0),
            HeapNode::new(7, 2, 0),
            HeapNode::new(1, 5, 0),
        ]
    );

    min_heap.insert(1, 9, 0);
    assert_eq!(
        *min_heap.heap(),
        vec![
            HeapNode::new(4, 1, 0),
            HeapNode::new(9, 1, 0),
            HeapNode::new(6, 2, 0),
            HeapNode::new(3, 2, 0),
            HeapNode::new(5, 4, 0),
            HeapNode::new(2, 3, 0),
            HeapNode::new(7, 2, 0),
            HeapNode::new(1, 5, 0),
            HeapNode::new(8, 2, 0),
        ]
    );
}

#[test]
fn test_extraction() {
    let mut min_heap: MinHeap = MinHeap::new(AgingFactor::none());
    // priority, job_id, timestamp
    min_heap.insert(5, 1, 0);
    min_heap.insert(3, 2, 0);
    min_heap.insert(2, 3, 0);
    min_heap.insert(1, 4, 0);
    min_heap.insert(4, 5, 0);
    min_heap.insert(2, 6, 0);
    min_heap.insert(2, 7, 0);
    min_heap.insert(2, 8, 0);
    min_heap.insert(1, 9, 0);

    assert_eq!(min_heap.peek().unwrap().priority, 1);
    assert_eq!(min_heap.get_top().unwrap().priority, 1);
    assert_eq!(
        *min_heap.heap(),
        vec![
            HeapNode::new(9, 1, 0),
            HeapNode::new(8, 2, 0),
            HeapNode::new(6, 2, 0),
            HeapNode::new(3, 2, 0),
            HeapNode::new(5, 4, 0),
            HeapNode::new(2, 3, 0),
            HeapNode::new(7, 2, 0),
            HeapNode::new(1, 5, 0),
        ]
    );

    assert_eq!(min_heap.peek().unwrap().priority, 1);
    assert_eq!(min_heap.get_top().unwrap().priority, 1);
    assert_eq!(
        *min_heap.heap(),
        vec![
            HeapNode::new(8, 2, 0),
            HeapNode::new(3, 2, 0),
            HeapNode::new(6, 2, 0),
            HeapNode::new(1, 5, 0),
            HeapNode::new(5, 4, 0),
            HeapNode::new(2, 3, 0),
            HeapNode::new(7, 2, 0),
        ]
    );
}

#[test]
fn min_heap_test_heap_insert() {
    let mut min_heap: MinHeap = MinHeap::new(AgingFactor::half());
    // priority, job_id, timestamp
    let ids: Vec<u64> = vec![11, 12, 13, 14, 15, 16, 17, 18, 19];

    min_heap.insert(5, ids[0], 0);
    assert_eq!(*min_heap.heap(), vec![HeapNode::new(ids[0], 5, 0)]);

    min_heap.insert(3, ids[1], 1);
    assert_eq!(
        *min_heap.heap(),
        vec![HeapNode::new(ids[1], 3, 1), HeapNode::new(ids[0], 5, 0)]
    );

    min_heap.insert(2, ids[2], 2);
    assert_eq!(
        *min_heap.heap(),
        vec![
            HeapNode::new(ids[2], 2, 2),
            HeapNode::new(ids[0], 5, 0),
            HeapNode::new(ids[1], 3, 1)
        ]
    );

    min_heap.insert(1, ids[3], 3);
    assert_eq!(
        *min_heap.heap(),
        vec![
            HeapNode::new(ids[3], 1, 3),
            HeapNode::new(ids[2], 2, 2),
            HeapNode::new(ids[1], 3, 1),
            HeapNode::new(ids[0], 5, 0)
        ]
    );

    min_heap.insert(4, ids[4], 4);
    assert_eq!(
        *min_heap.heap(),
        vec![
            HeapNode::new(ids[3], 1, 3),
            HeapNode::new(ids[2], 2, 2),
            HeapNode::new(ids[1], 3, 1),
            HeapNode::new(ids[0], 5, 0),
            HeapNode::new(ids[4], 4, 4)
        ]
    );

    min_heap.insert(2, ids[5], 5);
    assert_eq!(
        *min_heap.heap(),
        vec![
            HeapNode::new(ids[3], 1, 3),
            HeapNode::new(ids[2], 2, 2),
            HeapNode::new(ids[5], 2, 5),
            HeapNode::new(ids[0], 5, 0),
            HeapNode::new(ids[4], 4, 4),
            HeapNode::new(ids[1], 3, 1),
        ]
    );

    min_heap.insert(2, ids[6], 6);
    assert_eq!(
        *min_heap.heap(),
        vec![
            HeapNode::new(ids[3], 1, 3),
            HeapNode::new(ids[2], 2, 2),
            HeapNode::new(ids[5], 2, 5),
            HeapNode::new(ids[0], 5, 0),
            HeapNode::new(ids[4], 4, 4),
            HeapNode::new(ids[1], 3, 1),
            HeapNode::new(ids[6], 2, 6)
        ]
    );

    min_heap.insert(2, ids[7], 7);
    assert_eq!(
        *min_heap.heap(),
        vec![
            HeapNode::new(ids[3], 1, 3),
            HeapNode::new(ids[2], 2, 2),
            HeapNode::new(ids[5], 2, 5),
            HeapNode::new(ids[7], 2, 7),
            HeapNode::new(ids[4], 4, 4),
            HeapNode::new(ids[1], 3, 1),
            HeapNode::new(ids[6], 2, 6),
            HeapNode::new(ids[0], 5, 0),
        ]
    );

    min_heap.insert(1, ids[8], 8);
    assert_eq!(
        *min_heap.heap(),
        vec![
            HeapNode::new(ids[3], 1, 3),
            HeapNode::new(ids[8], 1, 8),
            HeapNode::new(ids[5], 2, 5),
            HeapNode::new(ids[2], 2, 2),
            HeapNode::new(ids[4], 4, 4),
            HeapNode::new(ids[1], 3, 1),
            HeapNode::new(ids[6], 2, 6),
            HeapNode::new(ids[0], 5, 0),
            HeapNode::new(ids[7], 2, 7),
        ]
    );
}

#[test]
fn min_heap_test_extraction() {
    let mut min_heap: MinHeap = MinHeap::new(AgingFactor::half());
    // priority, job_id, timestamp
    min_heap.insert(5, 1, 0);
    min_heap.insert(3, 2, 1);
    min_heap.insert(2, 3, 2);
    min_heap.insert(1, 4, 3);
    min_heap.insert(4, 5, 4);
    min_heap.insert(2, 6, 5);
    min_heap.insert(2, 7, 6);
    min_heap.insert(2, 8, 7);
    min_heap.insert(1, 9, 8);

    assert_eq!(min_heap.peek().unwrap().priority, 1);
    assert_eq!(min_heap.get_top().unwrap().priority, 1);
    assert_eq!(
        *min_heap.heap(),
        vec![
            HeapNode::new(9, 1, 8),
            HeapNode::new(8, 2, 7),
            HeapNode::new(6, 2, 5),
            HeapNode::new(3, 2, 2),
            HeapNode::new(5, 4, 4),
            HeapNode::new(2, 3, 1),
            HeapNode::new(7, 2, 6),
            HeapNode::new(1, 5, 0),
        ]
    );

    assert_eq!(min_heap.peek().unwrap().priority, 1);
    assert_eq!(min_heap.get_top().unwrap().priority, 1);
    assert_eq!(
        *min_heap.heap(),
        vec![
            HeapNode::new(8, 2, 7),
            HeapNode::new(3, 2, 2),
            HeapNode::new(6, 2, 5),
            HeapNode::new(1, 5, 0),
            HeapNode::new(5, 4, 4),
            HeapNode::new(2, 3, 1),
            HeapNode::new(7, 2, 6),
        ]
    );

    assert_eq!(min_heap.peek().unwrap().priority, 2);
    assert_eq!(min_heap.get_top().unwrap().priority, 2);
    assert_eq!(
        *min_heap.heap(),
        vec![
            HeapNode::new(7, 2, 6),
            HeapNode::new(3, 2, 2),
            HeapNode::new(6, 2, 5),
            HeapNode::new(1, 5, 0),
            HeapNode::new(5, 4, 4),
            HeapNode::new(2, 3, 1),
        ]
    );

    assert_eq!(min_heap.peek().unwrap().priority, 2);
    assert_eq!(min_heap.get_top().unwrap().priority, 2);
    assert_eq!(
        *min_heap.heap(),
        vec![
            HeapNode::new(3, 2, 2),
            HeapNode::new(2, 3, 1),
            HeapNode::new(6, 2, 5),
            HeapNode::new(1, 5, 0),
            HeapNode::new(5, 4, 4),
        ]
    );

    assert_eq!(min_heap.peek().unwrap().priority, 2);
    assert_eq!(min_heap.get_top().unwrap().priority, 2);
    assert_eq!(
        *min_heap.heap(),
        vec![
            HeapNode::new(6, 2, 5),
            HeapNode::new(2, 3, 1),
            HeapNode::new(5, 4, 4),
            HeapNode::new(1, 5, 0),
        ]
    );

    assert_eq!(min_heap.peek().unwrap().priority, 2);
    assert_eq!(min_heap.get_top().unwrap().priority, 2);
    assert_eq!(
        *min_heap.heap(),
        vec![
            HeapNode::new(2, 3, 1),
            HeapNode::new(1, 5, 0),
            HeapNode::new(5, 4, 4),
        ]
    );

    assert_eq!(min_heap.peek().unwrap().priority, 3);
    assert_eq!(min_heap.get_top().unwrap().priority, 3);
    assert_eq!(
        *min_heap.heap(),
        vec![HeapNode::new(5, 4, 4), HeapNode::new(1, 5, 0)]
    );

    assert_eq!(min_heap.peek().unwrap().priority, 4);
    assert_eq!(min_heap.get_top().unwrap().priority, 4);
    assert_eq!(*min_heap.heap(), vec![HeapNode::new(1, 5, 0),]);

    assert_eq!(min_heap.peek().unwrap().priority, 5);
    assert_eq!(min_heap.get_top().unwrap().priority, 5);
    assert!(min_heap.heap().is_empty());

    assert!(min_heap.peek().is_none());
    assert!(min_heap.get_top().is_none());
    assert!(min_heap.heap().is_empty());
}

fn ids(heap: &MinHeap) -> Vec<u64> {
    heap.heap().iter().map(|node| node.job_id).collect()
}

fn is_heap(nodes: &[HeapNode]) -> bool {
    (1..nodes.len()).all(|i| nodes[(i - 1) / 2].effective_priority <= nodes[i].effective_priority)
}

#[test]
fn extraction_follows_priority() {
    let mut heap = MinHeap::new(AgingFactor::half());
    heap.insert(5, 1, 0);
    heap.insert(3, 2, 1);
    heap.insert(2, 3, 2);
    heap.insert(1, 4, 3);
    let mut order: Vec<u64> = Vec::new();
    while let Some(node) = heap.get_top() {
        order.push(node.job_id);
    }
    assert_eq!(order, vec![4, 3, 2, 1]);
}

#[test]
fn aging_clamps_at_zero() {
    let mut heap = MinHeap::new(AgingFactor::half());
    heap.insert(5, 1, 0);
    heap.calculate_effective_priority(20);
    let top = heap.peek().unwrap();
    assert_eq!(top.effective_priority, 0);
    assert_eq!(top.priority, 5);
    assert_eq!(top.enqueue_time, 0);
}

#[test]
fn changed_priority_moves_to_top() {
    let mut heap = MinHeap::new(AgingFactor::half());
    heap.insert(5, 1, 0);
    heap.insert(5, 2, 0);
    heap.insert(5, 3, 0);
    assert!(heap.change_priority(3, 1));
    let top = heap.get_top().unwrap();
    assert_eq!(top.job_id, 3);
    assert_eq!(top.priority, 1);
    assert_eq!(top.effective_priority, 1);
}

#[test]
fn change_priority_of_unknown_job_changes_nothing() {
    let mut heap = MinHeap::new(AgingFactor::half());
    heap.insert(5, 1, 0);
    heap.insert(4, 2, 0);
    let before: Vec<HeapNode> = heap.heap().clone();
    assert!(!heap.change_priority(9, 1));
    assert_eq!(*heap.heap(), before);
}

#[test]
fn change_priority_sifts_down_when_key_rises() {
    let mut heap = MinHeap::new(AgingFactor::none());
    heap.insert(1, 1, 0);
    heap.insert(2, 2, 0);
    heap.insert(3, 3, 0);
    assert!(heap.change_priority(1, 9));
    assert_eq!(ids(&heap), vec![2, 1, 3]);
    assert!(is_heap(heap.heap()));
}

#[test]
fn change_priority_goes_by_effective_priority() {
    // Job 1 has aged from 10 down to 0; raising its key to 5 must sift it down
    // past job 2, whose key is 2.
    let mut heap = MinHeap::new(AgingFactor::half());
    heap.insert(10, 1, 0);
    heap.insert(2, 2, 20);
    heap.calculate_effective_priority(20);
    assert_eq!(ids(&heap), vec![1, 2]);
    assert!(heap.change_priority(1, 5));
    assert_eq!(ids(&heap), vec![2, 1]);
    assert!(is_heap(heap.heap()));
}

#[test]
fn change_priority_takes_first_match() {
    let mut heap = MinHeap::new(AgingFactor::none());
    heap.insert(1, 7, 0);
    heap.insert(2, 7, 1);
    assert!(heap.change_priority(7, 5));
    assert_eq!(
        *heap.heap(),
        vec![HeapNode::new(7, 2, 1), HeapNode { job_id: 7, priority: 5, effective_priority: 5, enqueue_time: 0 }]
    );
}

#[test]
fn sift_down_prefers_left_child_on_tie() {
    let mut heap = MinHeap::new(AgingFactor::none());
    heap.insert(1, 1, 0);
    heap.insert(2, 2, 0);
    heap.insert(2, 3, 0);
    heap.insert(9, 4, 0);
    assert_eq!(heap.get_top().unwrap().job_id, 1);
    // Node 4 moved to the root and went down to the left child.
    assert_eq!(ids(&heap), vec![2, 4, 3]);
}

#[test]
fn sift_down_takes_strictly_smaller_right_child() {
    let mut heap = MinHeap::new(AgingFactor::none());
    heap.insert(1, 1, 0);
    heap.insert(3, 2, 0);
    heap.insert(2, 3, 0);
    heap.insert(9, 4, 0);
    assert_eq!(heap.get_top().unwrap().job_id, 1);
    assert_eq!(ids(&heap), vec![3, 2, 4]);
}

#[test]
fn effective_priority_exact_values() {
    let half = AgingFactor::half();
    assert_eq!(half.effective_priority(5, 0, 0), 5);
    assert_eq!(half.effective_priority(5, 0, 1), 5);
    assert_eq!(half.effective_priority(5, 0, 2), 4);
    assert_eq!(half.effective_priority(5, 0, 3), 4);
    assert_eq!(half.effective_priority(5, 0, 9), 1);
    assert_eq!(half.effective_priority(5, 0, 10), 0);
    assert_eq!(half.effective_priority(5, 0, 20), 0);
    assert_eq!(half.effective_priority(5, 0, u64::MAX), 0);
    let third = AgingFactor::new(1, 3).unwrap();
    assert_eq!(third.effective_priority(10, 4, 10), 8);
    assert_eq!(third.effective_priority(10, 4, 12), 8);
    assert_eq!(third.effective_priority(10, 4, 13), 7);
    let one = AgingFactor::new(1, 1).unwrap();
    assert_eq!(one.effective_priority(u32::MAX, 0, 7), u32::MAX - 7);
    assert_eq!(AgingFactor::none().effective_priority(7, 0, 1000), 7);
}

#[test]
fn effective_priority_of_a_job_from_the_future() {
    // floor(0.5 * (0 - 3)) = -2, so the priority rises by two.
    let half = AgingFactor::half();
    assert_eq!(half.effective_priority(5, 3, 0), 7);
    assert_eq!(half.effective_priority(5, 2, 0), 6);
    assert_eq!(half.effective_priority(5, 1, 0), 6);
    let one = AgingFactor::new(1, 1).unwrap();
    assert_eq!(one.effective_priority(u32::MAX, 10, 0), u32::MAX);
    assert_eq!(one.effective_priority(0, u64::MAX, 0), u32::MAX);
}

#[test]
fn aging_factor_must_be_a_fraction() {
    assert!(AgingFactor::new(1, 0).is_none());
    assert!(AgingFactor::new(3, 2).is_none());
    assert!(AgingFactor::new(0, 1).is_some());
    assert!(AgingFactor::new(2, 2).is_some());
    let f = AgingFactor::new(1, 4).unwrap();
    assert_eq!((f.numerator(), f.denominator()), (1, 4));
}

#[test]
fn aging_is_monotonic_in_time() {
    let f = AgingFactor::new(3, 7).unwrap();
    let mut last = f.effective_priority(40, 5, 0);
    for now in 1..200u64 {
        let next = f.effective_priority(40, 5, now);
        assert!(next <= last);
        last = next;
    }
    assert_eq!(last, 0);
}

#[test]
fn recompute_rebuilds_heap_order() {
    let mut heap = MinHeap::new(AgingFactor::half());
    // An old job of low urgency overtakes a young job of high urgency.
    heap.insert(3, 1, 100);
    heap.insert(10, 2, 0);
    heap.insert(4, 3, 100);
    heap.insert(8, 4, 90);
    heap.calculate_effective_priority(100);
    assert!(is_heap(heap.heap()));
    let top = heap.peek().unwrap();
    assert_eq!((top.job_id, top.effective_priority, top.priority), (2, 0, 10));
    let mut keys: Vec<u32> = Vec::new();
    while let Some(node) = heap.get_top() {
        keys.push(node.effective_priority);
    }
    assert_eq!(keys, vec![0, 3, 3, 4]);
}

#[test]
fn heap_order_holds_after_mixed_operations() {
    let mut heap = MinHeap::new(AgingFactor::new(1, 3).unwrap());
    let mut seed: u64 = 12345;
    for step in 0..400u64 {
        seed = seed.wrapping_mul(6364136223846793005).wrapping_add(1442695040888963407);
        let pick = (seed >> 33) % 4;
        let priority = ((seed >> 20) % 50) as u32;
        let job = (seed >> 40) % 30;
        match pick {
            0 | 1 => heap.insert(priority, job, step),
            2 => {
                heap.change_priority(job, priority);
            }
            _ => {
                if step % 3 == 0 {
                    heap.get_top();
                } else {
                    heap.calculate_effective_priority(step);
                }
            }
        }
        assert!(is_heap(heap.heap()));
    }
    let mut last = 0u32;
    while let Some(node) = heap.get_top() {
        assert!(node.effective_priority >= last);
        last = node.effective_priority;
    }
}

#[test]
fn enqueue_inserts_and_ages() {
    let mut heap = MinHeap::new(AgingFactor::half());
    heap.enqueue(9, 1, 0);
    heap.enqueue(3, 2, 10);
    assert_eq!(heap.len(), 2);
    assert!(!heap.is_empty());
    let top = heap.peek().unwrap();
    assert_eq!((top.job_id, top.effective_priority), (2, 3));
    assert_eq!(heap.heap()[1], HeapNode { job_id: 1, priority: 9, effective_priority: 4, enqueue_time: 0 });
    assert_eq!(heap.aging_factor(), AgingFactor::half());
}
