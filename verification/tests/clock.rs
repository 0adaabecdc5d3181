use distributed_queue::clock::LogicalClock;

#[test]
fn clock_starts_at_zero() {
    let clock = LogicalClock::new();
    assert_eq!(clock.now(), 0);
    assert!(clock.can_tick());
}

#[test]
fn tick_reads_then_increments() {
    let mut clock = LogicalClock::new();
    assert_eq!(clock.tick(), 0);
    assert_eq!(clock.now(), 1);
    assert_eq!(clock.tick(), 1);
    assert_eq!(clock.tick(), 2);
    assert_eq!(clock.now(), 3);
}

#[test]
fn later_readers_see_larger_values() {
    let mut clock = LogicalClock::starting_at(41);
    let mut last = clock.tick();
    assert_eq!(last, 41);
    for _ in 0..1000 {
        let next = clock.tick();
        assert!(last < next);
        last = next;
    }
}

#[test]
fn clock_at_the_limit_cannot_tick() {
    let mut clock = LogicalClock::starting_at(u64::MAX - 1);
    assert!(clock.can_tick());
    assert_eq!(clock.tick(), u64::MAX - 1);
    assert_eq!(clock.now(), u64::MAX);
    assert!(!clock.can_tick());
}
