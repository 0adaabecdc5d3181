//! A consumer's own heap of the jobs it has fetched.

use vstd::prelude::*;
use crate::aging::AgingFactor;
use crate::clock::LogicalClock;
use crate::heap_order::{is_min_heap, sift_up};
use crate::job::Job;
use crate::min_heap::{HeapNode, MinHeap};

verus! {

/// What a node answers to a poll.
#[derive(Debug, PartialEq, Eq)]
pub struct PollJobResponse {
    pub success: bool,
    pub job: Option<Job>,
}

/// The state of a consumer.
#[derive(Debug)]
pub struct ConsumerState {
    consumer_id: i32,
    nodes: Vec<String>,
    heap: MinHeap,
    clock: LogicalClock,
    timeout: i32,
}

/// The heap after `job` enters it at logical time `time`.
pub open spec fn with_job(queue: Seq<HeapNode>, job_id: u64, priority: u32, time: u64) -> Seq<
    HeapNode,
> {
    sift_up(
        queue.push(HeapNode { job_id, priority, effective_priority: priority, enqueue_time: time }),
        queue.len() as int,
    )
}

/// Whether an answer to a poll brings a job.
pub open spec fn brings_job(response: Option<PollJobResponse>) -> bool {
    response matches Some(r) && r.success && r.job.is_some()
}

/// The heap after the jobs of the first `k` answers entered it, one event on
/// the clock each, the clock at `time` before the first.
pub open spec fn with_polled(
    queue: Seq<HeapNode>,
    time: int,
    responses: Seq<Option<PollJobResponse>>,
    k: int,
) -> (Seq<HeapNode>, int)
    decreases k,
{
    if k <= 0 {
        (queue, time)
    } else {
        let (before, then) = with_polled(queue, time, responses, k - 1);
        if brings_job(responses[k - 1]) {
            let job = responses[k - 1]->0.job->0;
            (with_job(before, job.job_id, job.priority, then as u64), then + 1)
        } else {
            (before, then)
        }
    }
}

impl ConsumerState {
    pub closed spec fn id(self) -> i32 {
        self.consumer_id
    }

    /// The addresses of the nodes the consumer polls.
    pub closed spec fn polled_nodes(self) -> Seq<String> {
        self.nodes@
    }

    /// The seconds a poll may take.
    pub closed spec fn poll_timeout(self) -> i32 {
        self.timeout
    }

    /// The consumer's heap, in heap layout.
    pub closed spec fn queue(self) -> Seq<HeapNode> {
        self.heap@
    }

    /// The value the consumer's clock shows.
    pub closed spec fn time(self) -> int {
        self.clock@
    }

    /// A consumer with an empty heap that ages by one half, its clock at
    /// zero.
    pub fn new(consumer_id: i32, nodes: Vec<String>, timeout: i32) -> (state: Self)
        ensures
            state.id() == consumer_id,
            state.polled_nodes() == nodes@,
            state.poll_timeout() == timeout,
            state.queue() == Seq::<HeapNode>::empty(),
            state.time() == 0,
    {
        ConsumerState {
            consumer_id,
            nodes,
            heap: MinHeap::new(AgingFactor::half()),
            clock: LogicalClock::new(),
            timeout,
        }
    }

    pub fn consumer_id(&self) -> (id: i32)
        ensures
            id == self.id(),
    {
        self.consumer_id
    }

    pub fn nodes(&self) -> (nodes: &Vec<String>)
        ensures
            nodes@ == self.polled_nodes(),
    {
        &self.nodes
    }

    pub fn timeout(&self) -> (seconds: i32)
        ensures
            seconds == self.poll_timeout(),
    {
        self.timeout
    }

    /// The consumer's heap.
    pub fn heap(&self) -> (heap: &MinHeap)
        ensures
            heap@ == self.queue(),
            is_min_heap(self.queue()),
    {
        let _: &Vec<HeapNode> = self.heap.heap();
        &self.heap
    }

    /// The value the clock shows; reading it is no event.
    pub fn now(&self) -> (value: u64)
        ensures
            value == self.time(),
    {
        self.clock.now()
    }

    /// Puts a fetched job into the heap, stamped with a reading of the
    /// consumer's clock.
    pub fn insert_job(&mut self, job: Job)
        requires
            old(self).time() < u64::MAX,
        ensures
            final(self).queue() == with_job(
                old(self).queue(),
                job.job_id,
                job.priority,
                old(self).time() as u64,
            ),
            is_min_heap(final(self).queue()),
            final(self).time() == old(self).time() + 1,
            final(self).id() == old(self).id(),
            final(self).polled_nodes() == old(self).polled_nodes(),
            final(self).poll_timeout() == old(self).poll_timeout(),
    {
        let time: u64 = self.clock.tick();
        self.heap.insert(job.priority, job.job_id, time);
    }

    /// Takes in what the nodes answered to a poll, in order: every answer
    /// that reports success and brings a job puts that job into the heap. A
    /// node that did not answer is a `None`.
    pub fn get_jobs(&mut self, responses: &Vec<Option<PollJobResponse>>)
        requires
            old(self).time() + responses.len() <= u64::MAX,
        ensures
            (final(self).queue(), final(self).time()) == with_polled(
                old(self).queue(),
                old(self).time(),
                responses@,
                responses.len() as int,
            ),
            is_min_heap(final(self).queue()),
            final(self).id() == old(self).id(),
            final(self).polled_nodes() == old(self).polled_nodes(),
            final(self).poll_timeout() == old(self).poll_timeout(),
    {
        let _: &Vec<HeapNode> = self.heap.heap();
        let count: usize = responses.len();
        let mut k: usize = 0;
        while k < count
            invariant
                k <= count,
                count == responses.len(),
                (self.queue(), self.time()) == with_polled(
                    old(self).queue(),
                    old(self).time(),
                    responses@,
                    k as int,
                ),
                self.time() <= old(self).time() + k,
                old(self).time() + count <= u64::MAX,
                is_min_heap(self.queue()),
                self.id() == old(self).id(),
                self.polled_nodes() == old(self).polled_nodes(),
                self.poll_timeout() == old(self).poll_timeout(),
            decreases count - k,
        {
            match &responses[k] {
                Some(response) => {
                    if response.success {
                        match &response.job {
                            Some(job) => {
                                let time: u64 = self.clock.tick();
                                self.heap.insert(job.priority, job.job_id, time);
                            },
                            None => {},
                        }
                    }
                },
                None => {},
            }
            k = k + 1;
        }
    }
}

} // verus!
