//! The leader's side of a consensus round: the proposer.
//!
//! One round replicates one job. The leader mints a proposal number from its
//! clock and takes the round through four steps, each of which waits on work
//! done outside this crate: the followers' promises, the durable insert, the
//! followers' acknowledgements, and the followers' commit replies. What comes
//! back from outside is handed in as plain values; a follower that did not
//! answer in time is a `None`.
//!
//! A phase succeeds when a majority of the follower set answered in its
//! favour: strictly more than half.

use vstd::prelude::*;
use crate::aging::AgingFactor;
use crate::clock::LogicalClock;
use crate::heap_order::{admitted, is_min_heap};
use crate::job::{
    EnqueueRequest,
    EnqueueRequestView,
    Job,
    JobView,
    PaxosAccept,
    PaxosAck,
    PaxosCommit,
    PaxosCommitResponse,
    PaxosPrepare,
    PaxosPromise,
};
use crate::min_heap::{HeapNode, MinHeap};
use crate::weight::{HealthReport, MILLION};

verus! {

/// The deadline of every remote call, in milliseconds.
pub const RPC_TIMEOUT_MS: u64 = 10;

/// Why the store did not do what was asked.
#[derive(Debug, Clone, Copy, PartialEq, Eq, Structural)]
pub enum StoreError {
    /// The connection or the query failed.
    Unavailable,
    /// There is no row with that job id.
    NotFound,
}

/// Why a round did not replicate its job. Each is a failure the caller may
/// retry.
#[derive(Debug, Clone, Copy, PartialEq, Eq, Structural)]
pub enum RoundError {
    /// No majority promised.
    PrepareFailed,
    /// The durable insert failed.
    StoreUnavailable,
    /// No majority accepted.
    ProposeFailed,
    /// No majority answered the commit.
    CommitFailed,
}

impl RoundError {
    /// Whether consensus was lost, as opposed to the store.
    pub fn is_consensus_failure(&self) -> (lost: bool)
        ensures
            lost == (*self != RoundError::StoreUnavailable),
    {
        match self {
            RoundError::StoreUnavailable => false,
            _ => true,
        }
    }

    /// The text under which the failure is reported to the caller.
    pub fn message(&self) -> (text: String)
        ensures
            text@ == match *self {
                RoundError::PrepareFailed => "Paxos prepared failed"@,
                RoundError::StoreUnavailable => "Failed to run INSERT query"@,
                RoundError::ProposeFailed => "Paxos propose failed"@,
                RoundError::CommitFailed => "Paxos commit failed"@,
            },
    {
        match self {
            RoundError::PrepareFailed => String::from_str("Paxos prepared failed"),
            RoundError::StoreUnavailable => String::from_str("Failed to run INSERT query"),
            RoundError::ProposeFailed => String::from_str("Paxos propose failed"),
            RoundError::CommitFailed => String::from_str("Paxos commit failed"),
        }
    }
}

/// Strictly more than half of the follower set.
pub open spec fn is_majority(count: nat, followers: nat) -> bool {
    2 * count > followers
}

/// A reply that promises proposal `n`.
pub open spec fn is_promise(reply: Option<PaxosPromise>, n: u64) -> bool {
    reply matches Some(p) && p.promise && p.proposal_number == n
}

/// A reply that acknowledges proposal `n`.
pub open spec fn is_ack(reply: Option<PaxosAck>, n: u64) -> bool {
    reply matches Some(a) && a.proposal_number == n
}

/// How many of the replies promise proposal `n`.
pub open spec fn promise_count(replies: Seq<Option<PaxosPromise>>, n: u64) -> nat
    decreases replies.len(),
{
    if replies.len() == 0 {
        0
    } else {
        promise_count(replies.drop_last(), n) + if is_promise(replies.last(), n) {
            1nat
        } else {
            0nat
        }
    }
}

/// How many of the replies acknowledge proposal `n`.
pub open spec fn ack_count(replies: Seq<Option<PaxosAck>>, n: u64) -> nat
    decreases replies.len(),
{
    if replies.len() == 0 {
        0
    } else {
        ack_count(replies.drop_last(), n) + if is_ack(replies.last(), n) {
            1nat
        } else {
            0nat
        }
    }
}

/// How many followers answered the commit.
pub open spec fn commit_count(replies: Seq<Option<PaxosCommitResponse>>) -> nat
    decreases replies.len(),
{
    if replies.len() == 0 {
        0
    } else {
        commit_count(replies.drop_last()) + if replies.last().is_some() {
            1nat
        } else {
            0nat
        }
    }
}

/// A round before the durable insert, as mathematical values.
pub struct ProposalView {
    pub proposal_number: u64,
    pub request: EnqueueRequestView,
}

/// A round after the durable insert, as mathematical values.
pub struct CandidateView {
    pub proposal_number: u64,
    pub job: JobView,
}

/// Phase one: the round goes on when a majority promised.
pub open spec fn after_promises(
    round: ProposalView,
    followers: nat,
    replies: Seq<Option<PaxosPromise>>,
) -> Result<ProposalView, RoundError> {
    if is_majority(promise_count(replies, round.proposal_number), followers) {
        Ok(round)
    } else {
        Err(RoundError::PrepareFailed)
    }
}

/// The durable insert: the id the store assigned makes the request a job.
pub open spec fn after_insert(round: ProposalView, outcome: Result<u64, StoreError>) -> Result<
    CandidateView,
    RoundError,
> {
    match outcome {
        Ok(job_id) => Ok(
            CandidateView {
                proposal_number: round.proposal_number,
                job: JobView {
                    job_id,
                    priority: round.request.priority,
                    payload: round.request.payload,
                },
            },
        ),
        Err(_) => Err(RoundError::StoreUnavailable),
    }
}

/// Phase two: the round goes on when a majority accepted.
pub open spec fn after_acks(
    round: CandidateView,
    followers: nat,
    replies: Seq<Option<PaxosAck>>,
) -> Result<CandidateView, RoundError> {
    if is_majority(ack_count(replies, round.proposal_number), followers) {
        Ok(round)
    } else {
        Err(RoundError::ProposeFailed)
    }
}

/// Phase three: the job is replicated when a majority answered the commit.
pub open spec fn after_commits(
    round: CandidateView,
    followers: nat,
    replies: Seq<Option<PaxosCommitResponse>>,
) -> Result<JobView, RoundError> {
    if is_majority(commit_count(replies), followers) {
        Ok(round.job)
    } else {
        Err(RoundError::CommitFailed)
    }
}

/// What a whole round comes to, given everything that came back from
/// outside.
pub open spec fn round_result(
    round: ProposalView,
    followers: nat,
    promises: Seq<Option<PaxosPromise>>,
    stored: Result<u64, StoreError>,
    acks: Seq<Option<PaxosAck>>,
    commits: Seq<Option<PaxosCommitResponse>>,
) -> Result<JobView, RoundError> {
    match after_promises(round, followers, promises) {
        Err(e) => Err(e),
        Ok(prepared) => match after_insert(prepared, stored) {
            Err(e) => Err(e),
            Ok(candidate) => match after_acks(candidate, followers, acks) {
                Err(e) => Err(e),
                Ok(accepted) => after_commits(accepted, followers, commits),
            },
        },
    }
}

/// A majority of `n` followers is `ceil((n + 1) / 2)` of them or more.
pub proof fn lemma_majority_threshold(count: nat, followers: nat)
    ensures
        is_majority(count, followers) <==> count >= (followers + 2) / 2,
{
}

/// Liveness under majority: where a majority of the followers promise,
/// accept and answer the commit, and the store takes the row, the round
/// returns the job with the id the store assigned.
pub proof fn lemma_round_succeeds_under_majority(
    round: ProposalView,
    followers: nat,
    promises: Seq<Option<PaxosPromise>>,
    job_id: u64,
    acks: Seq<Option<PaxosAck>>,
    commits: Seq<Option<PaxosCommitResponse>>,
)
    requires
        promise_count(promises, round.proposal_number) >= (followers + 2) / 2,
        ack_count(acks, round.proposal_number) >= (followers + 2) / 2,
        commit_count(commits) >= (followers + 2) / 2,
    ensures
        round_result(round, followers, promises, Ok(job_id), acks, commits) == Ok::<
            JobView,
            RoundError,
        >(
            JobView {
                job_id,
                priority: round.request.priority,
                payload: round.request.payload,
            },
        ),
{
}

/// A round fails exactly when a phase lost its majority or the store failed,
/// and the error names the first step that did.
pub proof fn lemma_round_failure(
    round: ProposalView,
    followers: nat,
    promises: Seq<Option<PaxosPromise>>,
    stored: Result<u64, StoreError>,
    acks: Seq<Option<PaxosAck>>,
    commits: Seq<Option<PaxosCommitResponse>>,
)
    ensures
        round_result(round, followers, promises, stored, acks, commits).is_ok() <==> {
            &&& is_majority(promise_count(promises, round.proposal_number), followers)
            &&& stored.is_ok()
            &&& is_majority(ack_count(acks, round.proposal_number), followers)
            &&& is_majority(commit_count(commits), followers)
        },
        round_result(round, followers, promises, stored, acks, commits) matches Err(e) ==> e == (
        if !is_majority(promise_count(promises, round.proposal_number), followers) {
            RoundError::PrepareFailed
        } else if stored.is_err() {
            RoundError::StoreUnavailable
        } else if !is_majority(ack_count(acks, round.proposal_number), followers) {
            RoundError::ProposeFailed
        } else {
            RoundError::CommitFailed
        }),
{
}

/// Counts the replies that promise proposal `n`.
pub fn count_promises(replies: &Vec<Option<PaxosPromise>>, n: u64) -> (count: usize)
    ensures
        count == promise_count(replies@, n),
        count <= replies.len(),
{
    let mut count: usize = 0;
    let mut i: usize = 0;
    while i < replies.len()
        invariant
            i <= replies.len(),
            count <= i,
            count == promise_count(replies@.subrange(0, i as int), n),
        decreases replies.len() - i,
    {
        assert(replies@.subrange(0, i + 1).drop_last() =~= replies@.subrange(0, i as int));
        match replies[i] {
            Some(p) => {
                if p.promise && p.proposal_number == n {
                    count = count + 1;
                }
            },
            None => {},
        }
        i = i + 1;
    }
    assert(replies@.subrange(0, i as int) =~= replies@);
    count
}

/// Counts the replies that acknowledge proposal `n`.
pub fn count_acks(replies: &Vec<Option<PaxosAck>>, n: u64) -> (count: usize)
    ensures
        count == ack_count(replies@, n),
        count <= replies.len(),
{
    let mut count: usize = 0;
    let mut i: usize = 0;
    while i < replies.len()
        invariant
            i <= replies.len(),
            count <= i,
            count == ack_count(replies@.subrange(0, i as int), n),
        decreases replies.len() - i,
    {
        assert(replies@.subrange(0, i + 1).drop_last() =~= replies@.subrange(0, i as int));
        match replies[i] {
            Some(a) => {
                if a.proposal_number == n {
                    count = count + 1;
                }
            },
            None => {},
        }
        i = i + 1;
    }
    assert(replies@.subrange(0, i as int) =~= replies@);
    count
}

/// Counts the followers that answered the commit.
pub fn count_commits(replies: &Vec<Option<PaxosCommitResponse>>) -> (count: usize)
    ensures
        count == commit_count(replies@),
        count <= replies.len(),
{
    let mut count: usize = 0;
    let mut i: usize = 0;
    while i < replies.len()
        invariant
            i <= replies.len(),
            count <= i,
            count == commit_count(replies@.subrange(0, i as int)),
        decreases replies.len() - i,
    {
        assert(replies@.subrange(0, i + 1).drop_last() =~= replies@.subrange(0, i as int));
        if replies[i].is_some() {
            count = count + 1;
        }
        i = i + 1;
    }
    assert(replies@.subrange(0, i as int) =~= replies@);
    count
}

/// Whether `count` is a majority of `followers`.
pub fn has_majority(count: usize, followers: usize) -> (yes: bool)
    ensures
        yes == is_majority(count as nat, followers as nat),
{
    count > followers / 2
}

/// A round that waits for the followers' promises.
#[derive(Debug)]
pub struct Preparing {
    proposal_number: u64,
    request: EnqueueRequest,
}

/// A round that a majority promised and that waits for the durable insert.
#[derive(Debug)]
pub struct Storing {
    proposal_number: u64,
    request: EnqueueRequest,
}

/// A round whose job has its id and that waits for the followers'
/// acknowledgements.
#[derive(Debug)]
pub struct Accepting {
    proposal_number: u64,
    job: Job,
}

/// A round that a majority accepted and that waits for the followers' commit
/// replies.
#[derive(Debug)]
pub struct Committing {
    proposal_number: u64,
    job: Job,
}

impl View for Preparing {
    type V = ProposalView;

    closed spec fn view(&self) -> ProposalView {
        ProposalView { proposal_number: self.proposal_number, request: self.request@ }
    }
}

impl View for Storing {
    type V = ProposalView;

    closed spec fn view(&self) -> ProposalView {
        ProposalView { proposal_number: self.proposal_number, request: self.request@ }
    }
}

impl View for Accepting {
    type V = CandidateView;

    closed spec fn view(&self) -> CandidateView {
        CandidateView { proposal_number: self.proposal_number, job: self.job@ }
    }
}

impl View for Committing {
    type V = CandidateView;

    closed spec fn view(&self) -> CandidateView {
        CandidateView { proposal_number: self.proposal_number, job: self.job@ }
    }
}

impl Preparing {
    /// The message to send to every follower.
    pub fn message(&self) -> (prepare: PaxosPrepare)
        ensures
            prepare.proposal_number == self@.proposal_number,
    {
        PaxosPrepare { proposal_number: self.proposal_number }
    }
}

impl Storing {
    pub fn proposal_number(&self) -> (n: u64)
        ensures
            n == self@.proposal_number,
    {
        self.proposal_number
    }

    /// What to insert into the store.
    pub fn request(&self) -> (request: &EnqueueRequest)
        ensures
            request@ == self@.request,
    {
        &self.request
    }
}

impl Accepting {
    /// The message to send to every follower.
    pub fn message(&self) -> (accept: PaxosAccept)
        ensures
            accept.proposal_number == self@.proposal_number,
            accept.proposed_job matches Some(job) && job@ == self@.job,
    {
        PaxosAccept {
            proposal_number: self.proposal_number,
            proposed_job: Some(self.job.duplicate()),
        }
    }
}

impl Committing {
    /// The message to send to every follower.
    pub fn message(&self) -> (commit: PaxosCommit)
        ensures
            commit == (PaxosCommit { proposal_number: self@.proposal_number, commit: true }),
    {
        PaxosCommit { proposal_number: self.proposal_number, commit: true }
    }
}

/// The state of a leader: its clock, its followers and its own heap.
#[derive(Debug)]
pub struct NodeState {
    clock: LogicalClock,
    node_id: u64,
    followers: Vec<String>,
    heap: MinHeap,
}

impl NodeState {
    /// The value the leader's clock shows.
    pub closed spec fn time(self) -> int {
        self.clock@
    }

    /// The leader's identity.
    pub closed spec fn id(self) -> u64 {
        self.node_id
    }

    /// The addresses of the follower set.
    pub closed spec fn follower_set(self) -> Seq<String> {
        self.followers@
    }

    /// The leader's heap, in heap layout.
    pub closed spec fn queue(self) -> Seq<HeapNode> {
        self.heap@
    }

    /// The aging factor of the leader's heap.
    pub closed spec fn factor(self) -> AgingFactor {
        self.heap.factor()
    }

    /// A leader with the given identity and follower set, an empty heap that
    /// ages by one half, and its clock at zero.
    pub fn new(node_id: u64, followers: Vec<String>) -> (state: Self)
        ensures
            state.id() == node_id,
            state.follower_set() == followers@,
            state.time() == 0,
            state.queue() == Seq::<HeapNode>::empty(),
            state.factor().num() == 1,
            state.factor().den() == 2,
    {
        NodeState {
            clock: LogicalClock::new(),
            node_id,
            followers,
            heap: MinHeap::new(AgingFactor::half()),
        }
    }

    pub fn node_id(&self) -> (id: u64)
        ensures
            id == self.id(),
    {
        self.node_id
    }

    pub fn followers(&self) -> (followers: &Vec<String>)
        ensures
            followers@ == self.follower_set(),
    {
        &self.followers
    }

    /// The leader's heap.
    pub fn heap(&self) -> (heap: &MinHeap)
        ensures
            heap@ == self.queue(),
            heap.factor() == self.factor(),
    {
        &self.heap
    }

    /// The value the clock shows; reading it is no event.
    pub fn now(&self) -> (value: u64)
        ensures
            value == self.time(),
    {
        self.clock.now()
    }

    /// What the leader answers to a health probe, given the CPU and the
    /// memory in use on its host, in millionths: the value its clock shows
    /// stands for the queue depth and for the response time. `None` where a
    /// fraction is above one.
    pub fn node_health(&self, cpu_utilization: u32, memory_usage: u32) -> (report: Option<
        HealthReport,
    >)
        ensures
            report.is_some() <==> cpu_utilization <= MILLION && memory_usage <= MILLION,
            report matches Some(r) ==> {
                &&& r.cpu() == cpu_utilization
                &&& r.memory() == memory_usage
                &&& r.depth() == self.time()
                &&& r.response() == self.time()
            },
    {
        HealthReport::measured(cpu_utilization, memory_usage, &self.clock)
    }

    /// Registers an event on the leader's clock: returns the current value
    /// and advances the clock by one.
    pub fn increment_timestamp(&mut self) -> (reading: u64)
        requires
            old(self).time() < u64::MAX,
        ensures
            reading == old(self).time(),
            final(self).time() == old(self).time() + 1,
            final(self).id() == old(self).id(),
            final(self).follower_set() == old(self).follower_set(),
            final(self).queue() == old(self).queue(),
            final(self).factor() == old(self).factor(),
    {
        self.clock.tick()
    }

    /// Opens a round for `request`. The enqueue is an event on the clock, and
    /// the proposal number is the value the clock shows after it.
    pub fn begin_round(&mut self, request: EnqueueRequest) -> (round: Preparing)
        requires
            old(self).time() < u64::MAX,
        ensures
            round@ == (ProposalView {
                proposal_number: (old(self).time() + 1) as u64,
                request: request@,
            }),
            final(self).time() == old(self).time() + 1,
            final(self).id() == old(self).id(),
            final(self).follower_set() == old(self).follower_set(),
            final(self).queue() == old(self).queue(),
            final(self).factor() == old(self).factor(),
    {
        let _: u64 = self.clock.tick();
        Preparing { proposal_number: self.clock.now(), request }
    }

    /// Phase one is over: `replies` holds what each follower answered to the
    /// prepare. The round goes on to the durable insert exactly when a
    /// majority of the follower set promised this proposal.
    pub fn promises_received(&self, round: Preparing, replies: &Vec<Option<PaxosPromise>>) -> (next:
        Result<Storing, RoundError>)
        ensures
            match after_promises(round@, self.follower_set().len(), replies@) {
                Ok(view) => next matches Ok(storing) && storing@ == view,
                Err(e) => next matches Err(f) && f == e,
            },
    {
        let promised: usize = count_promises(replies, round.proposal_number);
        if has_majority(promised, self.followers.len()) {
            Ok(Storing { proposal_number: round.proposal_number, request: round.request })
        } else {
            Err(RoundError::PrepareFailed)
        }
    }

    /// Takes note of what the store said to an insert. A row that was
    /// inserted is an event on the clock; a store that failed changes
    /// nothing. Returns the id the store assigned.
    pub fn insert_job(&mut self, stored: Result<u64, StoreError>) -> (job_id: Result<u64, StoreError>)
        requires
            stored.is_ok() ==> old(self).time() < u64::MAX,
        ensures
            job_id == stored,
            final(self).time() == old(self).time() + if stored.is_ok() {
                1int
            } else {
                0int
            },
            final(self).id() == old(self).id(),
            final(self).follower_set() == old(self).follower_set(),
            final(self).queue() == old(self).queue(),
            final(self).factor() == old(self).factor(),
    {
        match stored {
            Ok(id) => {
                let _: u64 = self.clock.tick();
                Ok(id)
            },
            Err(e) => Err(e),
        }
    }

    /// The durable insert is over: `outcome` holds the id the store assigned,
    /// or why it assigned none. A row that was inserted is an event on the
    /// clock. A row that the store took stays even if the round fails later.
    pub fn row_inserted(&mut self, round: Storing, outcome: Result<u64, StoreError>) -> (next:
        Result<Accepting, RoundError>)
        requires
            outcome.is_ok() ==> old(self).time() < u64::MAX,
        ensures
            match after_insert(round@, outcome) {
                Ok(view) => next matches Ok(accepting) && accepting@ == view,
                Err(e) => next matches Err(f) && f == e,
            },
            final(self).time() == old(self).time() + if outcome.is_ok() {
                1int
            } else {
                0int
            },
            final(self).id() == old(self).id(),
            final(self).follower_set() == old(self).follower_set(),
            final(self).queue() == old(self).queue(),
            final(self).factor() == old(self).factor(),
    {
        match self.insert_job(outcome) {
            Ok(job_id) => {
                Ok(
                    Accepting {
                        proposal_number: round.proposal_number,
                        job: Job {
                            job_id,
                            priority: round.request.priority,
                            payload: round.request.payload,
                        },
                    },
                )
            },
            Err(_) => Err(RoundError::StoreUnavailable),
        }
    }

    /// Phase two is over: `replies` holds what each follower answered to the
    /// accept. The round goes on to the commit exactly when a majority of the
    /// follower set acknowledged this proposal.
    pub fn acks_received(&self, round: Accepting, replies: &Vec<Option<PaxosAck>>) -> (next: Result<
        Committing,
        RoundError,
    >)
        ensures
            match after_acks(round@, self.follower_set().len(), replies@) {
                Ok(view) => next matches Ok(committing) && committing@ == view,
                Err(e) => next matches Err(f) && f == e,
            },
    {
        let acked: usize = count_acks(replies, round.proposal_number);
        if has_majority(acked, self.followers.len()) {
            Ok(Committing { proposal_number: round.proposal_number, job: round.job })
        } else {
            Err(RoundError::ProposeFailed)
        }
    }

    /// Phase three is over: `replies` holds what each follower answered to
    /// the commit. Where a majority of the follower set answered, the job is
    /// replicated: it enters the leader's own heap, stamped with a reading of
    /// the leader's clock, and is returned.
    pub fn commits_received(
        &mut self,
        round: Committing,
        replies: &Vec<Option<PaxosCommitResponse>>,
    ) -> (done: Result<Job, RoundError>)
        requires
            is_majority(commit_count(replies@), old(self).follower_set().len()) ==> old(self).time()
                < u64::MAX,
        ensures
            match after_commits(round@, old(self).follower_set().len(), replies@) {
                Ok(view) => {
                    &&& done matches Ok(job) && job@ == view
                    &&& final(self).time() == old(self).time() + 1
                    &&& final(self).queue() == admitted(
                        old(self).queue(),
                        old(self).factor(),
                        view.priority,
                        view.job_id,
                        old(self).time() as u64,
                    )
                },
                Err(e) => {
                    &&& done matches Err(f) && f == e
                    &&& final(self).time() == old(self).time()
                    &&& final(self).queue() == old(self).queue()
                },
            },
            is_min_heap(final(self).queue()),
            final(self).id() == old(self).id(),
            final(self).follower_set() == old(self).follower_set(),
            final(self).factor() == old(self).factor(),
    {
        let _: &Vec<HeapNode> = self.heap.heap();
        let answered: usize = count_commits(replies);
        if has_majority(answered, self.followers.len()) {
            let reading: u64 = self.clock.tick();
            self.heap.enqueue(round.job.priority, round.job.job_id, reading);
            Ok(round.job)
        } else {
            Err(RoundError::CommitFailed)
        }
    }
}

} // verus!
