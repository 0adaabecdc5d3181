//! Lamport clock: one counter per process, read and advanced at every
//! observable event.

use vstd::prelude::*;

verus! {

/// A logical clock. Its view is the value the next reader will observe.
#[derive(Debug)]
pub struct LogicalClock {
    counter: u64,
}

impl View for LogicalClock {
    type V = int;

    closed spec fn view(&self) -> int {
        self.counter as int
    }
}

impl LogicalClock {
    /// The reading that the `i`-th event after this state observes
    /// (the next event is event 0).
    pub open spec fn reading(self, i: nat) -> int
        decreases i,
    {
        if i == 0 {
            self.spec_tick().0
        } else {
            self.spec_tick().1.reading((i - 1) as nat)
        }
    }

    /// One event: the value it reads, and the clock it leaves behind.
    pub closed spec fn spec_tick(self) -> (int, LogicalClock) {
        (self.counter as int, LogicalClock { counter: (self.counter + 1) as u64 })
    }

    /// A clock that has seen no event.
    pub fn new() -> (clock: Self)
        ensures
            clock@ == 0,
    {
        LogicalClock { counter: 0 }
    }

    /// A clock resumed at a known value.
    pub fn starting_at(value: u64) -> (clock: Self)
        ensures
            clock@ == value,
    {
        LogicalClock { counter: value }
    }

    /// The value the next event will read. Reading it here is no event.
    pub fn now(&self) -> (value: u64)
        ensures
            value == self@,
    {
        self.counter
    }

    /// Whether the counter has room for another event.
    pub fn can_tick(&self) -> (room: bool)
        ensures
            room == (self@ < u64::MAX),
    {
        self.counter < u64::MAX
    }

    /// Registers one event: returns the current value and advances by one.
    pub fn tick(&mut self) -> (reading: u64)
        requires
            old(self)@ < u64::MAX,
        ensures
            reading == old(self)@,
            final(self)@ == old(self)@ + 1,
            (reading as int, *final(self)) == old(self).spec_tick(),
    {
        let reading: u64 = self.counter;
        self.counter = self.counter + 1;
        reading
    }

    /// What `spec_tick` says in terms of the view.
    pub proof fn lemma_spec_tick(self)
        requires
            self@ < u64::MAX,
        ensures
            self.spec_tick().0 == self@,
            self.spec_tick().1@ == self@ + 1,
    {
    }

    /// The `i`-th reading is the current value plus `i`.
    pub proof fn lemma_reading(self, i: nat)
        requires
            self@ + i <= u64::MAX,
        ensures
            self.reading(i) == self@ + i,
        decreases i,
    {
        if i > 0 {
            self.lemma_spec_tick();
            self.spec_tick().1.lemma_reading((i - 1) as nat);
        }
    }

    /// Clock monotonicity: of two events on one clock, the earlier one reads a
    /// strictly smaller value than the later one.
    pub proof fn lemma_readings_increase(self, earlier: nat, later: nat)
        requires
            earlier < later,
            self@ + later <= u64::MAX,
        ensures
            self.reading(earlier) < self.reading(later),
    {
        self.lemma_reading(earlier);
        self.lemma_reading(later);
    }
}

} // verus!
