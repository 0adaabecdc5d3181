//! The job and the messages that carry it between the parts of the service.

use vstd::prelude::*;

verus! {

/// A job as the store knows it.
#[derive(Debug, PartialEq, Eq)]
pub struct Job {
    /// Assigned by the store at the first durable insert, never reused.
    pub job_id: u64,
    /// A lower value is more urgent.
    pub priority: u32,
    /// Opaque to the queue.
    pub payload: Vec<u8>,
}

/// What a `Job` holds, as mathematical values.
pub struct JobView {
    pub job_id: u64,
    pub priority: u32,
    pub payload: Seq<u8>,
}

impl View for Job {
    type V = JobView;

    open spec fn view(&self) -> JobView {
        JobView { job_id: self.job_id, priority: self.priority, payload: self.payload@ }
    }
}

/// A copy of `bytes`.
pub fn copy_bytes(bytes: &Vec<u8>) -> (copy: Vec<u8>)
    ensures
        copy@ == bytes@,
{
    let mut copy: Vec<u8> = Vec::new();
    let mut i: usize = 0;
    while i < bytes.len()
        invariant
            i <= bytes.len(),
            copy@ == bytes@.subrange(0, i as int),
        decreases bytes.len() - i,
    {
        copy.push(bytes[i]);
        i = i + 1;
        assert(copy@ =~= bytes@.subrange(0, i as int));
    }
    assert(copy@ =~= bytes@);
    copy
}

impl Job {
    pub fn new(job_id: u64, priority: u32, payload: Vec<u8>) -> (job: Self)
        ensures
            job@ == (JobView { job_id, priority, payload: payload@ }),
    {
        Job { job_id, priority, payload }
    }

    /// A copy of this job.
    pub fn duplicate(&self) -> (copy: Self)
        ensures
            copy@ == self@,
    {
        Job { job_id: self.job_id, priority: self.priority, payload: copy_bytes(&self.payload) }
    }
}

/// A request to enqueue a job that has no id yet.
#[derive(Debug, PartialEq, Eq)]
pub struct EnqueueRequest {
    pub priority: u32,
    pub payload: Vec<u8>,
}

/// What an `EnqueueRequest` holds, as mathematical values.
pub struct EnqueueRequestView {
    pub priority: u32,
    pub payload: Seq<u8>,
}

impl View for EnqueueRequest {
    type V = EnqueueRequestView;

    open spec fn view(&self) -> EnqueueRequestView {
        EnqueueRequestView { priority: self.priority, payload: self.payload@ }
    }
}

impl EnqueueRequest {
    pub fn new(priority: u32, payload: Vec<u8>) -> (request: Self)
        ensures
            request@ == (EnqueueRequestView { priority, payload: payload@ }),
    {
        EnqueueRequest { priority, payload }
    }

    /// A copy of this request.
    pub fn duplicate(&self) -> (copy: Self)
        ensures
            copy@ == self@,
    {
        EnqueueRequest { priority: self.priority, payload: copy_bytes(&self.payload) }
    }
}

/// Phase one of a round, leader to follower.
#[derive(Debug, Clone, Copy, PartialEq, Eq, Structural)]
pub struct PaxosPrepare {
    pub proposal_number: u64,
}

/// A follower's answer to a prepare that it grants.
#[derive(Debug, Clone, Copy, PartialEq, Eq, Structural)]
pub struct PaxosPromise {
    /// The proposal the promise is for.
    pub proposal_number: u64,
    /// The highest proposal the follower had accepted before.
    pub highest_proposal: u64,
    pub promise: bool,
}

/// Phase two of a round, leader to follower.
#[derive(Debug, PartialEq, Eq)]
pub struct PaxosAccept {
    pub proposal_number: u64,
    pub proposed_job: Option<Job>,
}

/// A follower's answer to an accept that it grants.
#[derive(Debug, Clone, Copy, PartialEq, Eq, Structural)]
pub struct PaxosAck {
    pub proposal_number: u64,
}

/// Phase three of a round, leader to follower.
#[derive(Debug, Clone, Copy, PartialEq, Eq, Structural)]
pub struct PaxosCommit {
    pub proposal_number: u64,
    pub commit: bool,
}

/// A follower's answer to a commit that it carried out.
#[derive(Debug, Clone, Copy, PartialEq, Eq, Structural)]
pub struct PaxosCommitResponse {
    pub proposal_number: u64,
}

} // verus!
