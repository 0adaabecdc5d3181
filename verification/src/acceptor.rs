//! The follower's side of a consensus round: the acceptor.
//!
//! A follower grants a prepare whose number is strictly above what it has
//! promised, and an accept whose number is at or above it. The difference is
//! deliberate: the proposer of the current round accepts with the number it
//! was just promised. A commit for the accepted proposal moves the job into
//! the follower's own heap.

use vstd::prelude::*;
use crate::aging::AgingFactor;
use crate::api::QueueNode;
use crate::heap_order::{admitted, is_min_heap};
use crate::job::{Job, JobView, PaxosAck, PaxosCommitResponse, PaxosPromise};
use crate::min_heap::{HeapNode, MinHeap};

verus! {

/// Where a follower stands in its dealings with proposers.
#[derive(Debug, Clone, Copy, PartialEq, Eq, Structural)]
pub enum AcceptorPhase {
    /// Nothing outstanding.
    Idle,
    /// A promise is outstanding.
    Promised,
    /// A value is accepted and awaits its commit.
    Accepted,
}

/// Why a follower turned a message down.
#[derive(Debug, Clone, Copy, PartialEq, Eq, Structural)]
pub enum PaxosError {
    /// The proposal number is below what the follower has promised (for a
    /// prepare: not above it).
    BelowPromise,
    /// The accept message carried no job.
    NoJob,
    /// The follower holds no accepted value for the proposal.
    NothingAccepted,
}

/// The ballot state of a follower, as mathematical values.
pub struct BallotView {
    pub promised: u64,
    pub accepted: u64,
    pub value: Option<JobView>,
    pub phase: AcceptorPhase,
}

/// A message that a follower may receive.
pub enum AcceptorEvent {
    Prepare(u64),
    Accept(u64, JobView),
    Commit(u64, bool),
}

/// The ballot of a follower that has seen no message.
pub open spec fn initial_ballot() -> BallotView {
    BallotView { promised: 0, accepted: 0, value: None, phase: AcceptorPhase::Idle }
}

/// What holds of every ballot a follower can reach.
pub open spec fn ballot_valid(b: BallotView) -> bool {
    &&& b.promised >= b.accepted
    &&& b.phase == AcceptorPhase::Accepted ==> b.value.is_some() && b.accepted == b.promised
    &&& b.phase == AcceptorPhase::Idle ==> b.value.is_none()
}

/// A prepare is granted when its number is strictly above the promise.
pub open spec fn grants_prepare(b: BallotView, n: u64) -> bool {
    n > b.promised
}

/// An accept is granted when its number is at or above the promise.
pub open spec fn grants_accept(b: BallotView, n: u64) -> bool {
    n >= b.promised
}

/// A commit is carried out when the follower holds a value accepted under
/// that very number.
pub open spec fn grants_commit(b: BallotView, n: u64) -> bool {
    b.value.is_some() && b.accepted == n
}

/// A granted prepare raises the promise and keeps what was accepted.
pub open spec fn after_prepare(b: BallotView, n: u64) -> BallotView {
    if grants_prepare(b, n) {
        BallotView { promised: n, phase: AcceptorPhase::Promised, ..b }
    } else {
        b
    }
}

/// A granted accept records the proposal and its value.
pub open spec fn after_accept(b: BallotView, n: u64, value: JobView) -> BallotView {
    if grants_accept(b, n) {
        BallotView { promised: n, accepted: n, value: Some(value), phase: AcceptorPhase::Accepted }
    } else {
        b
    }
}

/// A commit that is carried out clears the value. From `Accepted` the
/// follower goes to `Idle` where the value was committed and back to
/// `Promised` where it was discarded; a newer promise stays outstanding.
pub open spec fn after_commit(b: BallotView, n: u64, commit: bool) -> BallotView {
    if grants_commit(b, n) {
        BallotView {
            value: None,
            phase: if b.phase == AcceptorPhase::Accepted {
                if commit {
                    AcceptorPhase::Idle
                } else {
                    AcceptorPhase::Promised
                }
            } else {
                b.phase
            },
            ..b
        }
    } else {
        b
    }
}

/// Whether the follower grants the message.
pub open spec fn grants(b: BallotView, event: AcceptorEvent) -> bool {
    match event {
        AcceptorEvent::Prepare(n) => grants_prepare(b, n),
        AcceptorEvent::Accept(n, _) => grants_accept(b, n),
        AcceptorEvent::Commit(n, _) => grants_commit(b, n),
    }
}

/// The ballot after one message.
pub open spec fn after_event(b: BallotView, event: AcceptorEvent) -> BallotView {
    match event {
        AcceptorEvent::Prepare(n) => after_prepare(b, n),
        AcceptorEvent::Accept(n, value) => after_accept(b, n, value),
        AcceptorEvent::Commit(n, commit) => after_commit(b, n, commit),
    }
}

/// The ballot after the first `k` messages of `events`.
pub open spec fn after_events(b: BallotView, events: Seq<AcceptorEvent>, k: int) -> BallotView
    decreases k,
{
    if k <= 0 {
        b
    } else {
        after_event(after_events(b, events, k - 1), events[k - 1])
    }
}

/// No message breaks the ballot invariant, and none lowers the promise.
pub proof fn lemma_event_keeps_ballot(b: BallotView, event: AcceptorEvent)
    requires
        ballot_valid(b),
    ensures
        ballot_valid(after_event(b, event)),
        after_event(b, event).promised >= b.promised,
        after_event(b, event).accepted >= b.accepted,
{
}

/// After any run of messages the ballot is valid and the promise has not gone
/// down.
pub proof fn lemma_events_keep_ballot(b: BallotView, events: Seq<AcceptorEvent>, from: int, to: int)
    requires
        ballot_valid(b),
        0 <= from <= to <= events.len(),
    ensures
        ballot_valid(after_events(b, events, to)),
        after_events(b, events, to).promised >= after_events(b, events, from).promised,
    decreases to - from,
{
    if from < to {
        lemma_events_keep_ballot(b, events, from, to - 1);
        lemma_event_keeps_ballot(after_events(b, events, to - 1), events[to - 1]);
    } else {
        lemma_events_valid(b, events, to);
    }
}

proof fn lemma_events_valid(b: BallotView, events: Seq<AcceptorEvent>, k: int)
    requires
        ballot_valid(b),
        0 <= k <= events.len(),
    ensures
        ballot_valid(after_events(b, events, k)),
    decreases k,
{
    if k > 0 {
        lemma_events_valid(b, events, k - 1);
        lemma_event_keeps_ballot(after_events(b, events, k - 1), events[k - 1]);
    }
}

/// Safety of the acceptor: whatever messages arrive, a follower that granted
/// a prepare for `m` never afterwards grants an accept for a number below
/// `m`.
pub proof fn lemma_accept_respects_promise(
    b: BallotView,
    events: Seq<AcceptorEvent>,
    i: int,
    j: int,
    m: u64,
    n: u64,
    value: JobView,
)
    requires
        ballot_valid(b),
        0 <= i < j < events.len(),
        events[i] == AcceptorEvent::Prepare(m),
        grants(after_events(b, events, i), events[i]),
        events[j] == AcceptorEvent::Accept(n, value),
        grants(after_events(b, events, j), events[j]),
    ensures
        n >= m,
{
    assert(after_events(b, events, i + 1) == after_event(after_events(b, events, i), events[i]));
    lemma_events_keep_ballot(b, events, i + 1, j);
}

/// The ballot of one follower.
#[derive(Debug)]
pub struct Ballot {
    promised_proposal: u64,
    accepted_proposal: u64,
    accepted_value: Option<Job>,
    phase: AcceptorPhase,
}

impl View for Ballot {
    type V = BallotView;

    closed spec fn view(&self) -> BallotView {
        BallotView {
            promised: self.promised_proposal,
            accepted: self.accepted_proposal,
            value: match self.accepted_value {
                Some(job) => Some(job@),
                None => None,
            },
            phase: self.phase,
        }
    }
}

impl Ballot {
    #[verifier::type_invariant]
    closed spec fn well_formed(self) -> bool {
        ballot_valid(self@)
    }

    /// The ballot of a follower that has seen no message.
    pub fn new() -> (ballot: Self)
        ensures
            ballot@ == initial_ballot(),
    {
        Ballot {
            promised_proposal: 0,
            accepted_proposal: 0,
            accepted_value: None,
            phase: AcceptorPhase::Idle,
        }
    }

    pub fn promised_proposal(&self) -> (n: u64)
        ensures
            n == self@.promised,
            ballot_valid(self@),
    {
        proof {
            use_type_invariant(self);
        }
        self.promised_proposal
    }

    pub fn accepted_proposal(&self) -> (n: u64)
        ensures
            n == self@.accepted,
    {
        self.accepted_proposal
    }

    pub fn accepted_value(&self) -> (value: Option<&Job>)
        ensures
            value.is_some() == self@.value.is_some(),
            value matches Some(job) ==> self@.value == Some(job@),
    {
        self.accepted_value.as_ref()
    }

    pub fn phase(&self) -> (phase: AcceptorPhase)
        ensures
            phase == self@.phase,
    {
        self.phase
    }

    /// The ballot after a prepare, and whether the prepare was granted.
    fn prepared(self, proposal_number: u64) -> (next: (Self, bool))
        ensures
            next.0@ == after_prepare(self@, proposal_number),
            next.1 == grants_prepare(self@, proposal_number),
    {
        proof {
            use_type_invariant(&self);
        }
        if proposal_number > self.promised_proposal {
            (
                Ballot {
                    promised_proposal: proposal_number,
                    accepted_proposal: self.accepted_proposal,
                    accepted_value: self.accepted_value,
                    phase: AcceptorPhase::Promised,
                },
                true,
            )
        } else {
            (self, false)
        }
    }

    /// The ballot after an accept that carries `job`, and whether the accept
    /// was granted.
    fn accepted(self, proposal_number: u64, job: Job) -> (next: (Self, bool))
        ensures
            next.0@ == after_accept(self@, proposal_number, job@),
            next.1 == grants_accept(self@, proposal_number),
    {
        proof {
            use_type_invariant(&self);
        }
        if proposal_number >= self.promised_proposal {
            (
                Ballot {
                    promised_proposal: proposal_number,
                    accepted_proposal: proposal_number,
                    accepted_value: Some(job),
                    phase: AcceptorPhase::Accepted,
                },
                true,
            )
        } else {
            (self, false)
        }
    }

    /// The ballot after a commit, and the job that the commit released, if
    /// the commit was carried out.
    fn committed(self, proposal_number: u64, commit: bool) -> (next: (Self, Option<Job>))
        ensures
            next.0@ == after_commit(self@, proposal_number, commit),
            next.1.is_some() == grants_commit(self@, proposal_number),
            next.1 matches Some(job) ==> self@.value == Some(job@),
    {
        proof {
            use_type_invariant(&self);
        }
        if self.accepted_value.is_none() || self.accepted_proposal != proposal_number {
            return (self, None);
        }
        let phase: AcceptorPhase = match self.phase {
            AcceptorPhase::Accepted => if commit {
                AcceptorPhase::Idle
            } else {
                AcceptorPhase::Promised
            },
            AcceptorPhase::Promised => AcceptorPhase::Promised,
            AcceptorPhase::Idle => AcceptorPhase::Idle,
        };
        (
            Ballot {
                promised_proposal: self.promised_proposal,
                accepted_proposal: self.accepted_proposal,
                accepted_value: None,
                phase,
            },
            self.accepted_value,
        )
    }
}

/// The state of one follower: its ballot, its heap and its clock.
#[derive(Debug)]
pub struct PaxosState {
    ballot: Ballot,
    node: QueueNode,
}

impl PaxosState {
    /// The ballot state.
    pub closed spec fn ballot(self) -> BallotView {
        self.ballot@
    }

    /// The follower's heap and clock.
    pub closed spec fn node(self) -> QueueNode {
        self.node
    }

    /// The follower's heap, in heap layout.
    pub open spec fn queue(self) -> Seq<HeapNode> {
        self.node().queue()
    }

    /// The aging factor of the follower's heap.
    pub open spec fn factor(self) -> AgingFactor {
        self.node().factor()
    }

    /// The value the follower's clock shows.
    pub open spec fn time(self) -> int {
        self.node().time()
    }

    /// A follower that has seen no message: nothing promised, nothing
    /// accepted, an empty heap that ages by one half, the clock at zero.
    pub fn new() -> (state: Self)
        ensures
            state.ballot() == initial_ballot(),
            state.queue() == Seq::<HeapNode>::empty(),
            state.factor().num() == 1,
            state.factor().den() == 2,
            state.time() == 0,
    {
        PaxosState { ballot: Ballot::new(), node: QueueNode::new(AgingFactor::half()) }
    }

    /// The follower's ballot.
    pub fn current_ballot(&self) -> (ballot: &Ballot)
        ensures
            ballot@ == self.ballot(),
    {
        &self.ballot
    }

    /// The follower's heap.
    pub fn heap(&self) -> (heap: &MinHeap)
        ensures
            heap@ == self.queue(),
            heap.factor() == self.factor(),
            is_min_heap(self.queue()),
    {
        self.node.heap()
    }

    /// The follower's heap and clock, as its clients reach them.
    pub fn queue_node(&self) -> (node: &QueueNode)
        ensures
            *node == self.node(),
    {
        &self.node
    }

    /// The follower's heap and clock, for the operations of its clients:
    /// dequeue, enqueue and update. The ballot is out of their reach.
    pub fn queue_node_mut(&mut self) -> (node: &mut QueueNode)
        ensures
            *node == old(self).node(),
            final(self).node() == *final(node),
            final(self).ballot() == old(self).ballot(),
    {
        &mut self.node
    }

    /// The value the clock shows; reading it is no event.
    pub fn now(&self) -> (value: u64)
        ensures
            value == self.time(),
    {
        self.node.now()
    }

    /// Registers an event on the follower's clock: returns the current value
    /// and advances the clock by one.
    pub fn increment_time(&mut self) -> (reading: u64)
        requires
            old(self).time() < u64::MAX,
        ensures
            reading == old(self).time(),
            final(self).time() == old(self).time() + 1,
            final(self).ballot() == old(self).ballot(),
            final(self).queue() == old(self).queue(),
            final(self).factor() == old(self).factor(),
    {
        self.node.increment_time()
    }

    /// Handles a prepare. The follower promises exactly when the number is
    /// strictly above what it has promised; the promise reports the highest
    /// proposal accepted so far. Receiving the message is an event on the
    /// clock.
    pub fn prepare(&mut self, proposal_number: u64) -> (reply: Result<PaxosPromise, PaxosError>)
        requires
            old(self).time() < u64::MAX,
        ensures
            final(self).ballot() == after_prepare(old(self).ballot(), proposal_number),
            ballot_valid(final(self).ballot()),
            reply.is_ok() <==> grants_prepare(old(self).ballot(), proposal_number),
            reply matches Ok(promise) ==> promise == (PaxosPromise {
                proposal_number,
                highest_proposal: old(self).ballot().accepted,
                promise: true,
            }),
            reply matches Err(e) ==> e == PaxosError::BelowPromise,
            final(self).time() == old(self).time() + 1,
            final(self).queue() == old(self).queue(),
            final(self).factor() == old(self).factor(),
    {
        let _: u64 = self.node.increment_time();
        let highest_proposal: u64 = self.ballot.accepted_proposal();
        let mut ballot: Ballot = Ballot::new();
        std::mem::swap(&mut ballot, &mut self.ballot);
        let (next, granted) = ballot.prepared(proposal_number);
        self.ballot = next;
        let _: u64 = self.ballot.promised_proposal();
        if granted {
            Ok(PaxosPromise { proposal_number, highest_proposal, promise: true })
        } else {
            Err(PaxosError::BelowPromise)
        }
    }

    /// Handles an accept. The follower accepts exactly when the number is at
    /// or above what it has promised and the message carries a job; it then
    /// records the number and the job. A message without a job changes
    /// nothing. Receiving the message is an event on the clock.
    pub fn accept(&mut self, proposal_number: u64, proposed_job: Option<Job>) -> (reply: Result<
        PaxosAck,
        PaxosError,
    >)
        requires
            old(self).time() < u64::MAX,
        ensures
            match proposed_job {
                Some(job) => {
                    &&& final(self).ballot() == after_accept(
                        old(self).ballot(),
                        proposal_number,
                        job@,
                    )
                    &&& reply.is_ok() <==> grants_accept(old(self).ballot(), proposal_number)
                    &&& reply matches Err(e) ==> e == PaxosError::BelowPromise
                },
                None => {
                    &&& final(self).ballot() == old(self).ballot()
                    &&& reply == Err::<PaxosAck, PaxosError>(
                        if grants_accept(old(self).ballot(), proposal_number) {
                            PaxosError::NoJob
                        } else {
                            PaxosError::BelowPromise
                        },
                    )
                },
            },
            reply matches Ok(ack) ==> ack == (PaxosAck { proposal_number }),
            reply.is_ok() ==> proposal_number >= old(self).ballot().promised,
            ballot_valid(final(self).ballot()),
            final(self).time() == old(self).time() + 1,
            final(self).queue() == old(self).queue(),
            final(self).factor() == old(self).factor(),
    {
        let _: u64 = self.node.increment_time();
        let promised: u64 = self.ballot.promised_proposal();
        match proposed_job {
            Some(job) => {
                let mut ballot: Ballot = Ballot::new();
                std::mem::swap(&mut ballot, &mut self.ballot);
                let (next, granted) = ballot.accepted(proposal_number, job);
                self.ballot = next;
                let _: u64 = self.ballot.promised_proposal();
                if granted {
                    Ok(PaxosAck { proposal_number })
                } else {
                    Err(PaxosError::BelowPromise)
                }
            },
            None => {
                if proposal_number >= promised {
                    Err(PaxosError::NoJob)
                } else {
                    Err(PaxosError::BelowPromise)
                }
            },
        }
    }

    /// Handles a commit. Where the follower holds a value accepted under
    /// `proposal_number`, the value is cleared; with `commit` set the job
    /// first enters the follower's heap, stamped with a reading of the
    /// follower's own clock, and every effective priority is brought to that
    /// time. Any other commit changes nothing.
    pub fn commit(&mut self, proposal_number: u64, commit: bool) -> (reply: Result<
        PaxosCommitResponse,
        PaxosError,
    >)
        requires
            grants_commit(old(self).ballot(), proposal_number) && commit ==> old(self).time()
                < u64::MAX,
        ensures
            final(self).ballot() == after_commit(old(self).ballot(), proposal_number, commit),
            ballot_valid(final(self).ballot()),
            reply.is_ok() <==> grants_commit(old(self).ballot(), proposal_number),
            reply matches Ok(done) ==> done == (PaxosCommitResponse { proposal_number }),
            reply matches Err(e) ==> e == PaxosError::NothingAccepted,
            final(self).factor() == old(self).factor(),
            is_min_heap(final(self).queue()),
            grants_commit(old(self).ballot(), proposal_number) && commit ==> {
                &&& final(self).time() == old(self).time() + 1
                &&& final(self).queue() == admitted(
                    old(self).queue(),
                    old(self).factor(),
                    old(self).ballot().value->0.priority,
                    old(self).ballot().value->0.job_id,
                    old(self).time() as u64,
                )
                &&& final(self).queue().len() == old(self).queue().len() + 1
            },
            !(grants_commit(old(self).ballot(), proposal_number) && commit) ==> {
                &&& final(self).time() == old(self).time()
                &&& final(self).queue() == old(self).queue()
            },
    {
        let _: &MinHeap = self.node.heap();
        let mut ballot: Ballot = Ballot::new();
        std::mem::swap(&mut ballot, &mut self.ballot);
        let (next, released) = ballot.committed(proposal_number, commit);
        self.ballot = next;
        let _: u64 = self.ballot.promised_proposal();
        match released {
            Some(job) => {
                if commit {
                    self.node.commit_job(job.priority, job.job_id);
                }
                Ok(PaxosCommitResponse { proposal_number })
            },
            None => Err(PaxosError::NothingAccepted),
        }
    }
}

} // verus!
