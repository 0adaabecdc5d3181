//! The buffer of enqueue requests that wait to be dispatched.

use std::collections::VecDeque;
use vstd::prelude::*;
use crate::job::EnqueueRequest;

verus! {

/// A first-in, first-out queue of requests. Its view is the requests in
/// arrival order, the oldest first.
#[derive(Debug)]
pub struct Buffer {
    requests: VecDeque<EnqueueRequest>,
}

impl View for Buffer {
    type V = Seq<EnqueueRequest>;

    closed spec fn view(&self) -> Seq<EnqueueRequest> {
        self.requests@
    }
}

impl Buffer {
    /// An empty buffer.
    pub fn new() -> (buffer: Self)
        ensures
            buffer@ == Seq::<EnqueueRequest>::empty(),
    {
        Buffer { requests: VecDeque::new() }
    }

    /// Appends `job` behind everything that waits.
    pub fn insert(&mut self, job: EnqueueRequest)
        ensures
            final(self)@ == old(self)@.push(job),
    {
        self.requests.push_back(job);
    }

    /// Takes out the request that has waited longest, or `None` where nothing
    /// waits.
    pub fn pop_front(&mut self) -> (job: Option<EnqueueRequest>)
        ensures
            old(self)@.len() == 0 ==> job.is_none() && final(self)@ == old(self)@,
            old(self)@.len() > 0 ==> job == Some(old(self)@[0]) && final(self)@ == old(
                self,
            )@.drop_first(),
    {
        let job: Option<EnqueueRequest> = self.requests.pop_front();
        assert(old(self)@.len() > 0 ==> final(self)@ =~= old(self)@.drop_first());
        job
    }

    pub fn len(&self) -> (n: usize)
        ensures
            n == self@.len(),
    {
        self.requests.len()
    }

    pub fn is_empty(&self) -> (empty: bool)
        ensures
            empty == (self@.len() == 0),
    {
        self.requests.len() == 0
    }
}

} // verus!
