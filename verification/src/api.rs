//! What a queue node decides when a client dequeues, enqueues or updates a
//! job. The node keeps a heap and a clock; the rows are in a store that this
//! crate does not reach, so each operation that needs the store comes in two
//! parts, one before the store is asked and one that is told what it said.

use vstd::prelude::*;
use crate::aging::AgingFactor;
use crate::base64::{decode, encode, encoded};
use crate::clock::LogicalClock;
use crate::error::ApiError;
use crate::heap_order::{
    admitted,
    aged,
    heapify,
    is_min_heap,
    position_of,
    with_priority,
    without_top,
};
use crate::job::Job;
use crate::leader::StoreError;
use crate::min_heap::{HeapNode, MinHeap};
use crate::text::{around_number, decimal_text, parse_amount, parsed_amount};

verus! {

/// The answer to a dequeue: the row of the job that left the heap.
#[derive(Debug, PartialEq, Eq)]
pub struct DequeueResponse {
    pub job_id: u64,
    pub priority: u32,
    pub payload: Vec<u8>,
}

/// The answer to a dequeue of several jobs.
#[derive(Debug, PartialEq, Eq)]
pub struct BatchDequeueResponse {
    pub jobs: Vec<DequeueResponse>,
}

/// The answer to an enqueue.
#[derive(Debug, PartialEq, Eq)]
pub struct CreationResponse {
    pub message: String,
    pub job_id: u64,
}

/// A request to give a job another priority.
#[derive(Debug, Clone, Copy, PartialEq, Eq, Structural)]
pub struct UpdateRequest {
    pub priority: u32,
    pub job_id: u64,
}

/// The answer to an update.
#[derive(Debug, PartialEq, Eq)]
pub struct UpdateResponse {
    pub message: String,
}

/// Reads the payload of a request body, which travels as base64 text.
pub fn payload_from_text(text: &[u8]) -> (payload: Result<Vec<u8>, ApiError>)
    ensures
        payload matches Ok(bytes) ==> encoded(bytes@) == text@,
        payload matches Err(e) ==> {
            &&& e matches ApiError::InternalServerError(why) && why@ == "Payload is not base64"@
            &&& forall|bytes: Seq<u8>| #[trigger] encoded(bytes) != text@
        },
{
    match decode(text) {
        Some(bytes) => Ok(bytes),
        None => Err(ApiError::InternalServerError(String::from_str("Payload is not base64"))),
    }
}

/// Writes a payload as it travels in a response body.
pub fn payload_to_text(payload: &[u8]) -> (text: Vec<u8>)
    ensures
        text@ == encoded(payload@),
{
    encode(payload)
}

impl DequeueResponse {
    /// The answer that carries the row the store returned, or the error for
    /// a store that returned none.
    pub fn from_row(row: Result<Job, StoreError>) -> (answer: Result<Self, ApiError>)
        ensures
            match row {
                Ok(job) => answer matches Ok(r) && r.job_id == job.job_id && r.priority
                    == job.priority && r.payload == job.payload,
                Err(_) => answer matches Err(ApiError::DatabaseError(text)) && text@
                    == "Error database SELECT query failed."@,
            },
    {
        match row {
            Ok(job) => Ok(
                DequeueResponse { job_id: job.job_id, priority: job.priority, payload: job.payload },
            ),
            Err(e) => Err(ApiError::from_store(e, "Error database SELECT query failed.")),
        }
    }
}

/// The heap and the clock of one queue node.
#[derive(Debug)]
pub struct QueueNode {
    heap: MinHeap,
    clock: LogicalClock,
}

impl QueueNode {
    /// The node's heap, in heap layout.
    pub closed spec fn queue(self) -> Seq<HeapNode> {
        self.heap@
    }

    /// The aging factor of the node's heap.
    pub closed spec fn factor(self) -> AgingFactor {
        self.heap.factor()
    }

    /// The value the node's clock shows.
    pub closed spec fn time(self) -> int {
        self.clock@
    }

    /// A node with an empty heap that ages by `aging_factor`, its clock at
    /// zero.
    pub fn new(aging_factor: AgingFactor) -> (node: Self)
        ensures
            node.queue() == Seq::<HeapNode>::empty(),
            node.factor() == aging_factor,
            node.time() == 0,
    {
        QueueNode { heap: MinHeap::new(aging_factor), clock: LogicalClock::new() }
    }

    /// The node's heap.
    pub fn heap(&self) -> (heap: &MinHeap)
        ensures
            heap@ == self.queue(),
            heap.factor() == self.factor(),
            is_min_heap(self.queue()),
    {
        let _: &Vec<HeapNode> = self.heap.heap();
        &self.heap
    }

    /// The value the clock shows; reading it is no event.
    pub fn now(&self) -> (value: u64)
        ensures
            value == self.time(),
    {
        self.clock.now()
    }

    /// Registers an event on the node's clock: returns the current value and
    /// advances the clock by one.
    pub fn increment_time(&mut self) -> (reading: u64)
        requires
            old(self).time() < u64::MAX,
        ensures
            reading == old(self).time(),
            final(self).time() == old(self).time() + 1,
            final(self).queue() == old(self).queue(),
            final(self).factor() == old(self).factor(),
    {
        self.clock.tick()
    }

    /// Admits a job that was committed to this node. The commit is an event
    /// on the clock: the job enters the heap stamped with the reading, and
    /// every effective priority is brought to that time.
    pub fn commit_job(&mut self, priority: u32, job_id: u64)
        requires
            old(self).time() < u64::MAX,
        ensures
            final(self).queue() == admitted(
                old(self).queue(),
                old(self).factor(),
                priority,
                job_id,
                old(self).time() as u64,
            ),
            final(self).queue().len() == old(self).queue().len() + 1,
            is_min_heap(final(self).queue()),
            final(self).time() == old(self).time() + 1,
            final(self).factor() == old(self).factor(),
    {
        let reading: u64 = self.clock.tick();
        self.heap.enqueue(priority, job_id, reading);
    }

    /// Takes the most urgent job out of the heap. The dequeue is an event on
    /// the clock, and what stays in the heap has its effective priorities
    /// brought to the reading. On an empty heap nothing changes.
    pub fn dequeue(&mut self) -> (top: Result<HeapNode, ApiError>)
        requires
            old(self).queue().len() > 0 ==> old(self).time() < u64::MAX,
        ensures
            top.is_ok() <==> old(self).queue().len() > 0,
            top matches Ok(node) ==> {
                &&& node == old(self).queue()[0]
                &&& final(self).queue() == heapify(
                    aged(
                        without_top(old(self).queue()),
                        old(self).factor(),
                        old(self).time() as u64,
                    ),
                )
                &&& final(self).queue().len() == old(self).queue().len() - 1
                &&& final(self).time() == old(self).time() + 1
            },
            top matches Err(e) ==> {
                &&& e == ApiError::EmptyHeapError
                &&& final(self).queue() == old(self).queue()
                &&& final(self).time() == old(self).time()
            },
            is_min_heap(final(self).queue()),
            final(self).factor() == old(self).factor(),
    {
        match self.heap.get_top() {
            Some(node) => {
                let reading: u64 = self.clock.tick();
                self.heap.calculate_effective_priority(reading);
                Ok(node)
            },
            None => {
                assert(old(self).queue() =~= without_top(old(self).queue()));
                Err(ApiError::EmptyHeapError)
            },
        }
    }

    /// Opens a dequeue of several jobs and returns how many are asked for.
    /// An empty heap is reported first, then an amount that is no number.
    /// The batch as a whole is one event on the clock, at which the effective
    /// priorities are brought to the reading.
    pub fn dequeue_amount(&mut self, amount: &str) -> (count: Result<u64, ApiError>)
        requires
            old(self).queue().len() > 0 && parsed_amount(amount@).is_some() ==> old(self).time()
                < u64::MAX,
        ensures
            final(self).factor() == old(self).factor(),
            old(self).queue().len() == 0 ==> count == Err::<u64, ApiError>(
                ApiError::EmptyHeapError,
            ),
            old(self).queue().len() > 0 ==> match parsed_amount(amount@) {
                Some(n) => count == Ok::<u64, ApiError>(n),
                None => count matches Err(ApiError::InternalServerError(text)) && text@
                    == "Provided non numerical amount"@,
            },
            count.is_ok() ==> {
                &&& final(self).queue() == heapify(
                    aged(old(self).queue(), old(self).factor(), old(self).time() as u64),
                )
                &&& final(self).time() == old(self).time() + 1
            },
            count.is_err() ==> {
                &&& final(self).queue() == old(self).queue()
                &&& final(self).time() == old(self).time()
            },
            final(self).queue().len() == old(self).queue().len(),
            is_min_heap(final(self).queue()),
    {
        let _: &Vec<HeapNode> = self.heap.heap();
        if self.heap.is_empty() {
            return Err(ApiError::EmptyHeapError);
        }
        match parse_amount(amount) {
            Some(n) => {
                let reading: u64 = self.clock.tick();
                self.heap.calculate_effective_priority(reading);
                Ok(n)
            },
            None => Err(
                ApiError::InternalServerError(String::from_str("Provided non numerical amount")),
            ),
        }
    }

    /// Takes the next job of a batch out of the heap. A heap that runs empty
    /// before the batch is full fails the batch.
    pub fn dequeue_next(&mut self) -> (top: Result<HeapNode, ApiError>)
        ensures
            top.is_ok() <==> old(self).queue().len() > 0,
            top matches Ok(node) ==> node == old(self).queue()[0],
            top matches Err(e) ==> e == ApiError::EmptyHeapError,
            final(self).queue() == without_top(old(self).queue()),
            is_min_heap(final(self).queue()),
            final(self).factor() == old(self).factor(),
            final(self).time() == old(self).time(),
    {
        match self.heap.get_top() {
            Some(node) => Ok(node),
            None => Err(ApiError::EmptyHeapError),
        }
    }

    /// The store was asked to insert a row for a job of `priority`, and
    /// `stored` is what it said. A stored job is an event on the clock: it
    /// enters the heap stamped with the reading, and every effective priority
    /// is brought to that time.
    pub fn enqueue(&mut self, priority: u32, stored: Result<u64, StoreError>) -> (answer: Result<
        CreationResponse,
        ApiError,
    >)
        requires
            stored.is_ok() ==> old(self).time() < u64::MAX,
        ensures
            match stored {
                Ok(job_id) => {
                    &&& answer matches Ok(created) && created.job_id == job_id && created.message@
                        == "Job with job_id="@ + decimal_text(job_id as nat)
                        + " successfully added to database"@
                    &&& final(self).queue() == admitted(
                        old(self).queue(),
                        old(self).factor(),
                        priority,
                        job_id,
                        old(self).time() as u64,
                    )
                    &&& final(self).time() == old(self).time() + 1
                },
                Err(_) => {
                    &&& answer matches Err(ApiError::DatabaseError(text)) && text@
                        == "Error creating row"@
                    &&& final(self).queue() == old(self).queue()
                    &&& final(self).time() == old(self).time()
                },
            },
            is_min_heap(final(self).queue()),
            final(self).factor() == old(self).factor(),
    {
        let _: &Vec<HeapNode> = self.heap.heap();
        match stored {
            Ok(job_id) => {
                let reading: u64 = self.clock.tick();
                self.heap.enqueue(priority, job_id, reading);
                Ok(
                    CreationResponse {
                        message: around_number(
                            "Job with job_id=",
                            job_id,
                            " successfully added to database",
                        ),
                        job_id,
                    },
                )
            },
            Err(e) => Err(ApiError::from_store(e, "Error creating row")),
        }
    }

    /// The first part of an update: the job takes its new priority in the
    /// heap, before the store is asked. Returns whether the heap holds the
    /// job; a job that it does not hold changes nothing here.
    pub fn update(&mut self, request: &UpdateRequest) -> (found: bool)
        ensures
            found <==> position_of(old(self).queue(), request.job_id) < old(self).queue().len(),
            found ==> final(self).queue() == with_priority(
                old(self).queue(),
                position_of(old(self).queue(), request.job_id),
                request.priority,
            ),
            !found ==> final(self).queue() == old(self).queue(),
            is_min_heap(final(self).queue()),
            final(self).factor() == old(self).factor(),
            final(self).time() == old(self).time(),
    {
        self.heap.change_priority(request.job_id, request.priority)
    }

    /// The second part of an update: the store was asked to update the row,
    /// and `stored` is what it said. An updated row is an event on the clock,
    /// and every effective priority is brought to its reading. A store that
    /// failed leaves the heap as the first part left it.
    pub fn update_stored(&mut self, request: &UpdateRequest, stored: Result<(), StoreError>) -> (answer:
        Result<UpdateResponse, ApiError>)
        requires
            stored.is_ok() ==> old(self).time() < u64::MAX,
        ensures
            match stored {
                Ok(_) => {
                    &&& answer matches Ok(updated) && updated.message@ == "Job with job_id="@
                        + decimal_text(request.job_id as nat) + " has been successfully updated"@
                    &&& final(self).queue() == heapify(
                        aged(old(self).queue(), old(self).factor(), old(self).time() as u64),
                    )
                    &&& final(self).time() == old(self).time() + 1
                },
                Err(_) => {
                    &&& answer matches Err(ApiError::DatabaseError(text)) && text@
                        == "Error updating database"@
                    &&& final(self).queue() == old(self).queue()
                    &&& final(self).time() == old(self).time()
                },
            },
            is_min_heap(final(self).queue()),
            final(self).factor() == old(self).factor(),
    {
        let _: &Vec<HeapNode> = self.heap.heap();
        match stored {
            Ok(_) => {
                let reading: u64 = self.clock.tick();
                self.heap.calculate_effective_priority(reading);
                Ok(
                    UpdateResponse {
                        message: around_number(
                            "Job with job_id=",
                            request.job_id,
                            " has been successfully updated",
                        ),
                    },
                )
            },
            Err(e) => Err(ApiError::from_store(e, "Error updating database")),
        }
    }
}

} // verus!
