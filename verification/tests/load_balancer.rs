use distributed_queue::buffer::Buffer;
use distributed_queue::job::EnqueueRequest;
use distributed_queue::load_balancer::{Dispatch, LoadBalancer, RpcError, REFRESH_INTERVAL};
use distributed_queue::manager_state::{EnqueueJobRequest, ManagerState};
use distributed_queue::node_list::{Node, NodeList};
use distributed_queue::weight::{millionths, HealthReport, Weight};

fn addresses(names: &[&str]) -> Vec<String> {
    names.iter().map(|n| n.to_string()).collect()
}

fn request(tag: u8) -> EnqueueRequest {
    EnqueueRequest::new(tag as u32, vec![tag])
}

/// The list as (address, numerator, denominator).
fn listing(list: &NodeList) -> Vec<(String, i128, i128)> {
    (0..list.len())
        .map(|i| {
            let node = list.get(i).unwrap();
            (node.address().clone(), node.weight().numerator(), node.weight().denominator())
        })
        .collect()
}

/// Runs a whole distribution; every probe answers `probes`, and a delivery
/// fails when its address is `failing`. Returns the deliveries made and how
/// the distribution ended.
fn run(
    balancer: &mut LoadBalancer,
    probes: &Vec<Option<i64>>,
    failing: Option<&str>,
) -> (Vec<(String, EnqueueRequest)>, Result<(), RpcError>, usize) {
    let mut delivered = Vec::new();
    let mut refreshes = 0;
    let mut step = balancer.distribute();
    loop {
        step = match step {
            Dispatch::Refresh(pending) => {
                refreshes += 1;
                balancer.refreshed(pending, probes)
            }
            Dispatch::Deliver(pending) => {
                let ok = failing != Some(pending.address().as_str());
                if ok {
                    delivered.push((pending.address().clone(), pending.request().duplicate()));
                }
                balancer.delivered(pending, ok)
            }
            Dispatch::Finished => return (delivered, Ok(()), refreshes),
            Dispatch::Failed(e) => return (delivered, Err(e), refreshes),
        };
    }
}

#[test]
fn weights_are_normalized_and_sorted() {
    let balancer = LoadBalancer::new(
        &addresses(&["a", "b", "c"]),
        &vec![Some(40), Some(20), Some(40)],
    );
    let list = listing(balancer.node_list());
    assert_eq!(
        list,
        vec![
            ("a".to_string(), 40, 100),
            ("c".to_string(), 40, 100),
            ("b".to_string(), 20, 100),
        ]
    );
    let weights: Vec<f64> = list.iter().map(|(_, n, d)| *n as f64 / *d as f64).collect();
    assert_eq!(weights, vec![0.4, 0.4, 0.2]);
    assert!((weights.iter().sum::<f64>() - 1.0).abs() < 1e-6);
    assert_eq!(balancer.now(), 0);
    assert_eq!(balancer.buffered(), 0);
}

#[test]
fn failed_probes_are_pruned() {
    let balancer = LoadBalancer::new(
        &addresses(&["a", "b", "c", "d"]),
        &vec![Some(10), None, Some(30)],
    );
    assert_eq!(
        listing(balancer.node_list()),
        vec![("c".to_string(), 30, 40), ("a".to_string(), 10, 40)]
    );
}

#[test]
fn no_successful_probe_gives_empty_list() {
    let balancer = LoadBalancer::new(&addresses(&["a", "b"]), &vec![None, None]);
    assert_eq!(balancer.node_list().len(), 0);
    let balancer = LoadBalancer::new(&addresses(&["a", "b"]), &vec![]);
    assert_eq!(balancer.node_list().len(), 0);
    let balancer = LoadBalancer::new(&addresses(&[]), &vec![Some(1)]);
    assert_eq!(balancer.node_list().len(), 0);
    assert!(NodeList::empty().get(0).is_none());
}

#[test]
fn negative_raw_weights_normalize_by_their_sum() {
    // The score of a busy node is negative; the ratio to the sum is what counts.
    let balancer = LoadBalancer::new(
        &addresses(&["a", "b", "c"]),
        &vec![Some(-1), Some(-3), Some(0)],
    );
    assert_eq!(
        listing(balancer.node_list()),
        vec![("b".to_string(), 3, 4), ("a".to_string(), 1, 4), ("c".to_string(), 0, 4)]
    );
}

#[test]
fn zero_total_gives_zero_weights() {
    let balancer = LoadBalancer::new(&addresses(&["a", "b"]), &vec![Some(0), Some(0)]);
    assert_eq!(
        listing(balancer.node_list()),
        vec![("a".to_string(), 0, 1), ("b".to_string(), 0, 1)]
    );
    let balancer = LoadBalancer::new(&addresses(&["a", "b"]), &vec![Some(5), Some(-5)]);
    assert_eq!(
        listing(balancer.node_list()),
        vec![("a".to_string(), 0, 1), ("b".to_string(), 0, 1)]
    );
}

#[test]
fn extreme_raw_weights_do_not_overflow() {
    let balancer = LoadBalancer::new(
        &addresses(&["a", "b", "c"]),
        &vec![Some(i64::MIN), Some(i64::MIN), Some(i64::MAX)],
    );
    let list = listing(balancer.node_list());
    let total = -(2 * (i64::MIN as i128) + i64::MAX as i128);
    assert_eq!(list[0], ("a".to_string(), -(i64::MIN as i128), total));
    assert_eq!(list[1], ("b".to_string(), -(i64::MIN as i128), total));
    assert_eq!(list[2], ("c".to_string(), -(i64::MAX as i128), total));
    assert_eq!(balancer.plan().iter().map(|s| s.quota).collect::<Vec<u128>>(), vec![2, 2, 0]);
}

#[test]
fn refresh_reweighs_and_prunes() {
    let mut balancer = LoadBalancer::new(
        &addresses(&["a", "b", "c"]),
        &vec![Some(40), Some(20), Some(40)],
    );
    balancer.insert(request(1));
    // The list is a, c, b; the probes follow the list.
    balancer.refresh_weights(&vec![Some(10), None, Some(30)]);
    assert_eq!(
        listing(balancer.node_list()),
        vec![("b".to_string(), 30, 40), ("a".to_string(), 10, 40)]
    );
    assert_eq!(balancer.buffered(), 1);
    assert_eq!(balancer.now(), 0);
    balancer.refresh_weights(&vec![None, None]);
    assert_eq!(balancer.node_list().len(), 0);
    balancer.refresh_weights(&vec![Some(1), Some(1)]);
    assert_eq!(balancer.node_list().len(), 0);
}

#[test]
fn quota_is_floor_of_count_times_weight() {
    assert_eq!(Weight::new(40, 100).unwrap().quota(3), 1);
    assert_eq!(Weight::new(20, 100).unwrap().quota(3), 0);
    assert_eq!(Weight::new(1, 3).unwrap().quota(3), 1);
    assert_eq!(Weight::new(1, 3).unwrap().quota(2), 0);
    assert_eq!(Weight::new(5, 10).unwrap().quota(7), 3);
    assert_eq!(Weight::new(1, 1).unwrap().quota(6), 6);
    assert_eq!(Weight::new(3, 1).unwrap().quota(2), 6);
    assert_eq!(Weight::new(0, 1).unwrap().quota(9), 0);
    assert_eq!(Weight::new(-1, 2).unwrap().quota(9), 0);
    assert_eq!(Weight::zero().quota(9), 0);
    assert_eq!(Weight::new(i64::MAX, 1).unwrap().quota(usize::MAX), usize::MAX as u128 * i64::MAX as u128);
    assert!(Weight::new(1, 0).is_none());
    let w = Weight::normalize(-3, -12);
    assert_eq!((w.numerator(), w.denominator()), (3, 12));
    let w = Weight::normalize(3, 0);
    assert_eq!((w.numerator(), w.denominator()), (0, 1));
    let node = Node::new("x".to_string(), Weight::new(1, 4).unwrap());
    assert_eq!(node.address(), "x");
    assert_eq!(node.weight(), Weight::new(1, 4).unwrap());
}

#[test]
fn plan_gives_each_node_its_quota() {
    let balancer = LoadBalancer::new(
        &addresses(&["a", "b", "c", "d"]),
        &vec![Some(50), Some(25), Some(25), Some(0)],
    );
    let plan: Vec<(String, u128)> =
        balancer.plan().into_iter().map(|s| (s.address, s.quota)).collect();
    assert_eq!(
        plan,
        vec![
            ("a".to_string(), 2),
            ("b".to_string(), 1),
            ("c".to_string(), 1),
            ("d".to_string(), 0),
        ]
    );
}

#[test]
fn distribute_follows_quotas_in_order() {
    let mut balancer = LoadBalancer::new(
        &addresses(&["a", "b", "c", "d"]),
        &vec![Some(50), Some(25), Some(25), Some(0)],
    );
    for tag in 1..=6 {
        balancer.insert(request(tag));
    }
    let same = vec![Some(50), Some(25), Some(25), Some(0)];
    let (delivered, end, refreshes) = run(&mut balancer, &same, None);
    assert_eq!(end, Ok(()));
    assert_eq!(
        delivered,
        vec![
            ("a".to_string(), request(1)),
            ("a".to_string(), request(2)),
            ("b".to_string(), request(3)),
            ("c".to_string(), request(4)),
        ]
    );
    // The clock stood at zero, so the very first slot refreshed the weights.
    assert_eq!(refreshes, 1);
    assert_eq!(balancer.buffered(), 2);
    assert_eq!(balancer.now(), 4);
    let (delivered, end, refreshes) = run(&mut balancer, &same, None);
    assert_eq!(end, Err(RpcError::FailedRequest));
    assert_eq!(delivered, vec![("a".to_string(), request(5)), ("a".to_string(), request(6))]);
    assert_eq!(refreshes, 0);
    assert_eq!(balancer.now(), 7);
}

#[test]
fn distribute_on_empty_buffer_fails() {
    let mut balancer = LoadBalancer::new(&addresses(&["a"]), &vec![Some(7)]);
    let (delivered, end, refreshes) = run(&mut balancer, &vec![Some(7)], None);
    assert!(delivered.is_empty());
    assert_eq!(end, Err(RpcError::FailedRequest));
    assert_eq!(refreshes, 1);
    assert_eq!(balancer.now(), 1);
    assert_eq!(RpcError::FailedRequest.message(), "gRPC error");
}

#[test]
fn distribute_without_slots_finishes_at_once() {
    let mut balancer = LoadBalancer::new(&addresses(&["a", "b"]), &vec![None, None]);
    balancer.insert(request(1));
    let (delivered, end, refreshes) = run(&mut balancer, &vec![], None);
    assert!(delivered.is_empty());
    assert_eq!(end, Ok(()));
    assert_eq!(refreshes, 0);
    assert_eq!(balancer.now(), 0);
    assert_eq!(balancer.buffered(), 1);
}

#[test]
fn failed_delivery_stops_the_distribution() {
    let mut balancer = LoadBalancer::new(
        &addresses(&["a", "b"]),
        &vec![Some(50), Some(50)],
    );
    for tag in 1..=3 {
        balancer.insert(request(tag));
    }
    let same = vec![Some(50), Some(50)];
    let (delivered, end, _) = run(&mut balancer, &same, Some("b"));
    assert_eq!(end, Err(RpcError::FailedRequest));
    assert_eq!(delivered, vec![("a".to_string(), request(1))]);
    // The request that could not be delivered is gone; the rest waits.
    assert_eq!(balancer.buffered(), 1);
}

#[test]
fn refresh_in_mid_distribution_keeps_the_plan() {
    let mut balancer = LoadBalancer::new(
        &addresses(&["a", "b"]),
        &vec![Some(50), Some(50)],
    );
    for tag in 1..=2 {
        balancer.insert(request(tag));
    }
    // Every probe fails: the list empties, the distribution at hand goes on.
    let (delivered, end, refreshes) = run(&mut balancer, &vec![None, None], None);
    assert_eq!(end, Ok(()));
    assert_eq!(refreshes, 1);
    assert_eq!(delivered, vec![("a".to_string(), request(1)), ("b".to_string(), request(2))]);
    assert_eq!(balancer.node_list().len(), 0);
}

#[test]
fn weights_refresh_every_hundred_slots() {
    let mut balancer = LoadBalancer::new(&addresses(&["a", "b"]), &vec![Some(1), Some(1)]);
    let same = vec![Some(1), Some(1)];
    let mut refreshes = 0;
    for tag in 0..=255u8 {
        balancer.insert(request(tag));
    }
    while balancer.now() < 2 * REFRESH_INTERVAL + 10 {
        let (_, end, r) = run(&mut balancer, &same, None);
        assert_eq!(end, Ok(()));
        refreshes += r;
    }
    // At the readings 0, 100 and 200.
    assert_eq!(refreshes, 3);
    assert_eq!(REFRESH_INTERVAL, 100);
}

#[test]
fn balancer_clock_ticks() {
    let mut balancer = LoadBalancer::new(&addresses(&[]), &vec![]);
    assert_eq!(balancer.increment_time(), 0);
    assert_eq!(balancer.increment_time(), 1);
    assert_eq!(balancer.now(), 2);
}

#[test]
fn buffer_is_first_in_first_out() {
    let mut buffer = Buffer::new();
    assert!(buffer.is_empty());
    assert!(buffer.pop_front().is_none());
    buffer.insert(request(1));
    buffer.insert(request(2));
    buffer.insert(request(3));
    assert_eq!(buffer.len(), 3);
    assert_eq!(buffer.pop_front(), Some(request(1)));
    assert_eq!(buffer.pop_front(), Some(request(2)));
    buffer.insert(request(4));
    assert_eq!(buffer.pop_front(), Some(request(3)));
    assert_eq!(buffer.pop_front(), Some(request(4)));
    assert!(buffer.pop_front().is_none());
    assert!(buffer.is_empty());
}

#[test]
fn manager_buffers_and_answers() {
    let mut manager = ManagerState::new(4, addresses(&["a", "b"]));
    assert_eq!(manager.manager_id(), 4);
    assert_eq!(*manager.nodes(), addresses(&["a", "b"]));
    let mut balancer = LoadBalancer::new(&addresses(&["a"]), &vec![Some(1)]);
    let answer =
        manager.enqueue(&mut balancer, EnqueueJobRequest { priority: 3, payload: vec![1, 2] });
    assert_eq!(answer.message, "Job successfully added to queue");
    assert_eq!(manager.now(), 1);
    assert_eq!(balancer.buffered(), 1);
    assert_eq!(balancer.now(), 0);
    let _ = manager.enqueue(&mut balancer, EnqueueJobRequest { priority: 9, payload: vec![] });
    let (delivered, _, _) = run(&mut balancer, &vec![Some(1)], None);
    assert_eq!(delivered, vec![("a".to_string(), EnqueueRequest::new(3, vec![1, 2]))]);
    assert_eq!(manager.increment_time(), 2);
    assert_eq!(manager.increment_time(), 3);
}

#[test]
fn raw_weight_exact_values() {
    let raw = |cpu, mem, depth| HealthReport::new(cpu, mem, depth, 0).unwrap().raw_weight();
    // An idle node with nothing queued scores 1/10000, which rounds to zero.
    assert_eq!(raw(0, 0, 0), 0);
    assert_eq!(raw(0, 0, 1), 0);
    assert_eq!(raw(1_000_000, 0, 900_000), 0);
    // (1 - depth) / 10000 reaches one half at depth 5001.
    assert_eq!(raw(0, 0, 5000), 0);
    assert_eq!(raw(0, 0, 5001), -1);
    assert_eq!(raw(0, 0, 15000), -1);
    assert_eq!(raw(0, 0, 15001), -2);
    assert_eq!(raw(500_000, 0, 10_001), -1);
    assert_eq!(raw(500_000, 0, 10_000), 0);
    assert_eq!(raw(500_000, 500_000, 20_001), -1);
    assert_eq!(raw(500_000, 500_000, 1_000_001), -25);
    assert_eq!(raw(0, 0, u64::MAX), -1_844_674_407_370_955);
}

#[test]
fn health_report_needs_fractions() {
    assert!(HealthReport::new(1_000_001, 0, 0, 0).is_none());
    assert!(HealthReport::new(0, 1_000_001, 0, 0).is_none());
    let report = HealthReport::new(1_000_000, 1_000_000, 5, 6).unwrap();
    assert_eq!(report.cpu_utilization(), 1_000_000);
    assert_eq!(report.memory_usage(), 1_000_000);
    assert_eq!(report.queue_depth(), 5);
    assert_eq!(report.response_time(), 6);
    assert_eq!(report.raw_weight(), 0);
}

#[test]
fn add_node_joins_the_list() {
    let mut balancer = LoadBalancer::new(&addresses(&["a", "b"]), &vec![Some(30), Some(10)]);
    // A new node whose probe failed changes nothing.
    balancer.add_node("c".to_string(), None, &vec![Some(1), Some(1)]);
    assert_eq!(
        listing(balancer.node_list()),
        vec![("a".to_string(), 30, 40), ("b".to_string(), 10, 40)]
    );
    // The others are probed in the same round; b fails and leaves.
    balancer.add_node("c".to_string(), Some(60), &vec![Some(20), None]);
    assert_eq!(
        listing(balancer.node_list()),
        vec![("c".to_string(), 60, 80), ("a".to_string(), 20, 80)]
    );
    // Probes that are missing count as failed.
    balancer.add_node("d".to_string(), Some(5), &vec![Some(5)]);
    assert_eq!(
        listing(balancer.node_list()),
        vec![("c".to_string(), 5, 10), ("d".to_string(), 5, 10)]
    );
}

#[test]
fn fractions_in_millionths() {
    assert_eq!(millionths(1, 4), Some(250_000));
    assert_eq!(millionths(0, 5), Some(0));
    assert_eq!(millionths(5, 5), Some(1_000_000));
    assert_eq!(millionths(1, 3), Some(333_333));
    assert_eq!(millionths(2, 3), Some(666_666));
    assert_eq!(millionths(u64::MAX, u64::MAX), Some(1_000_000));
    assert_eq!(millionths(u64::MAX - 1, u64::MAX), Some(999_999));
    assert_eq!(millionths(6, 5), None);
    assert_eq!(millionths(0, 0), None);
    assert_eq!(millionths(1, 0), None);
}
