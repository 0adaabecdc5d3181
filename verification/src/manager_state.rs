//! The front of the enqueue manager: it takes a client's request, registers
//! the event and leaves the request in the load balancer's buffer. It does
//! not wait for the request to be dispatched.

use vstd::prelude::*;
use crate::clock::LogicalClock;
use crate::job::{EnqueueRequest, EnqueueRequestView};
use crate::load_balancer::LoadBalancer;

verus! {

/// A client's request to enqueue a job.
#[derive(Debug, PartialEq, Eq)]
pub struct EnqueueJobRequest {
    pub priority: u32,
    pub payload: Vec<u8>,
}

/// The manager's answer to an enqueue.
#[derive(Debug, PartialEq, Eq)]
pub struct EnqueueResponse {
    pub message: String,
}

/// The state of an enqueue manager.
#[derive(Debug)]
pub struct ManagerState {
    clock: LogicalClock,
    manager_id: i32,
    nodes: Vec<String>,
}

impl ManagerState {
    /// The value the manager's clock shows.
    pub closed spec fn time(self) -> int {
        self.clock@
    }

    pub closed spec fn id(self) -> i32 {
        self.manager_id
    }

    /// The addresses of the nodes the manager knows.
    pub closed spec fn known_nodes(self) -> Seq<String> {
        self.nodes@
    }

    /// A manager with the given identity and nodes, its clock at zero.
    pub fn new(manager_id: i32, nodes: Vec<String>) -> (state: Self)
        ensures
            state.id() == manager_id,
            state.known_nodes() == nodes@,
            state.time() == 0,
    {
        ManagerState { clock: LogicalClock::new(), manager_id, nodes }
    }

    pub fn manager_id(&self) -> (id: i32)
        ensures
            id == self.id(),
    {
        self.manager_id
    }

    pub fn nodes(&self) -> (nodes: &Vec<String>)
        ensures
            nodes@ == self.known_nodes(),
    {
        &self.nodes
    }

    /// The value the clock shows; reading it is no event.
    pub fn now(&self) -> (value: u64)
        ensures
            value == self.time(),
    {
        self.clock.now()
    }

    /// Registers an event on the manager's clock: returns the current value
    /// and advances the clock by one.
    pub fn increment_time(&mut self) -> (reading: u64)
        requires
            old(self).time() < u64::MAX,
        ensures
            reading == old(self).time(),
            final(self).time() == old(self).time() + 1,
            final(self).id() == old(self).id(),
            final(self).known_nodes() == old(self).known_nodes(),
    {
        self.clock.tick()
    }

    /// Takes a client's request: the event is registered on the manager's
    /// clock and the request goes to the end of the balancer's buffer. The
    /// answer tells that it is buffered, no more.
    pub fn enqueue(&mut self, balancer: &mut LoadBalancer, request: EnqueueJobRequest) -> (answer:
        EnqueueResponse)
        requires
            old(self).time() < u64::MAX,
        ensures
            answer.message@ == "Job successfully added to queue"@,
            final(self).time() == old(self).time() + 1,
            final(self).id() == old(self).id(),
            final(self).known_nodes() == old(self).known_nodes(),
            final(balancer).buffer().len() == old(balancer).buffer().len() + 1,
            final(balancer).buffer().drop_last() == old(balancer).buffer(),
            final(balancer).buffer().last()@ == (EnqueueRequestView {
                priority: request.priority,
                payload: request.payload@,
            }),
            final(balancer).nodes() == old(balancer).nodes(),
            final(balancer).time() == old(balancer).time(),
    {
        let _: u64 = self.clock.tick();
        balancer.insert(EnqueueRequest { priority: request.priority, payload: request.payload });
        assert(balancer.buffer().drop_last() =~= old(balancer).buffer());
        EnqueueResponse { message: String::from_str("Job successfully added to queue") }
    }
}

} // verus!
