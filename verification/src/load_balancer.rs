//! The weighted load balancer: a buffer of enqueue requests, the list of
//! nodes, and the distribution of the one over the other.
//!
//! A distribution walks the node list as it stood when the distribution
//! began. Each node is given `floor(count * weight)` slots, `count` being the
//! number of nodes. Every slot is an event on the clock; a slot whose reading
//! is a multiple of a hundred first has the weights refreshed. Then the
//! oldest request is taken from the buffer and delivered to the node. The
//! probes and the delivery are done outside this crate, which is told how
//! they went.

use vstd::prelude::*;
use crate::buffer::Buffer;
use crate::clock::LogicalClock;
use crate::job::EnqueueRequest;
use crate::node_list::{
    addresses_of,
    installed,
    list_valid,
    NodeList,
    NodeView,
};
use crate::weight::quota;

verus! {

/// The number of slots between two refreshes of the weights.
pub const REFRESH_INTERVAL: u64 = 100;

/// Why a distribution stopped early.
#[derive(Debug, Clone, Copy, PartialEq, Eq, Structural)]
pub enum RpcError {
    /// A request could not be delivered, or there was none to deliver.
    FailedRequest,
}

impl RpcError {
    pub fn message(&self) -> (text: String)
        ensures
            text@ == "gRPC error"@,
    {
        String::from_str("gRPC error")
    }
}

/// The first `n` probes of a round, a node without a probe counted as one
/// whose probe failed.
pub open spec fn fitted(probes: Seq<Option<i64>>, n: int) -> Seq<Option<i64>> {
    Seq::new(
        n as nat,
        |i: int|
            if i < probes.len() {
                probes[i]
            } else {
                None
            },
    )
}

/// One node's part in a distribution.
#[derive(Debug)]
pub struct Share {
    pub address: String,
    /// The number of requests the node is to get.
    pub quota: u128,
}

/// The parts of all nodes, in the order of the list.
pub open spec fn plan_of(nodes: Seq<NodeView>) -> Seq<Share> {
    Seq::new(
        nodes.len(),
        |i: int| Share { address: nodes[i].address, quota: quota(nodes.len(), nodes[i].weight) as u128 },
    )
}

/// How far a distribution has come, as mathematical values: the plan, the
/// node whose turn it is, and how many requests that node has been given.
pub struct CursorView {
    pub plan: Seq<Share>,
    pub node: int,
    pub used: int,
}

/// The cursor moved on to the first node that has a slot left, or to the end
/// of the plan.
pub open spec fn settled(c: CursorView) -> CursorView
    decreases c.plan.len() - c.node,
{
    if 0 <= c.node < c.plan.len() && c.used >= c.plan[c.node].quota {
        settled(CursorView { node: c.node + 1, used: 0, ..c })
    } else {
        c
    }
}

/// What a distribution does next, as mathematical values.
pub enum DispatchView {
    /// Probe the nodes and report their raw weights.
    Refresh(CursorView),
    /// Deliver the request to the node at the address and report how it went.
    Deliver(CursorView, String, EnqueueRequest),
    /// Every slot is used.
    Finished,
    /// The distribution stops here.
    Failed(RpcError),
}

/// A step of a distribution together with what it leaves of the buffer and
/// of the clock.
pub struct Outcome {
    pub step: DispatchView,
    pub buffer: Seq<EnqueueRequest>,
    pub time: int,
}

/// The next step of a distribution that stands at `cursor`. `ticked` tells
/// that the slot at hand had its event on the clock already, before a
/// refresh.
pub open spec fn dispatch_from(
    cursor: CursorView,
    ticked: bool,
    buffer: Seq<EnqueueRequest>,
    time: int,
) -> Outcome {
    let at = settled(cursor);
    if !(0 <= at.node < at.plan.len()) {
        Outcome { step: DispatchView::Finished, buffer, time }
    } else if !ticked && time % (REFRESH_INTERVAL as int) == 0 {
        Outcome { step: DispatchView::Refresh(at), buffer, time: time + 1 }
    } else {
        let after = if ticked {
            time
        } else {
            time + 1
        };
        if buffer.len() == 0 {
            Outcome { step: DispatchView::Failed(RpcError::FailedRequest), buffer, time: after }
        } else {
            Outcome {
                step: DispatchView::Deliver(
                    CursorView { used: at.used + 1, ..at },
                    at.plan[at.node].address,
                    buffer[0],
                ),
                buffer: buffer.drop_first(),
                time: after,
            }
        }
    }
}

/// The nodes that a distribution at `c` has yet to deliver to, one entry for
/// every slot that is left, in the order in which the slots are served.
pub open spec fn slots_left(c: CursorView) -> Seq<String>
    decreases c.plan.len() - c.node, c.plan[c.node].quota - c.used,
{
    if !(0 <= c.node < c.plan.len()) {
        Seq::empty()
    } else if c.used >= c.plan[c.node].quota {
        slots_left(CursorView { node: c.node + 1, used: 0, ..c })
    } else {
        seq![c.plan[c.node].address] + slots_left(CursorView { used: c.used + 1, ..c })
    }
}

/// Moving the cursor on to the next free slot uses no slot, and where it
/// stops inside the plan there is a slot left.
pub proof fn lemma_settled_slots(c: CursorView)
    ensures
        slots_left(settled(c)) == slots_left(c),
        settled(c).plan == c.plan,
        0 <= settled(c).node < c.plan.len() ==> settled(c).used < c.plan[settled(c).node].quota,
    decreases c.plan.len() - c.node,
{
    if 0 <= c.node < c.plan.len() && c.used >= c.plan[c.node].quota {
        lemma_settled_slots(CursorView { node: c.node + 1, used: 0, ..c });
    }
}

/// A distribution serves the slots of its plan in order, one with every
/// delivery: each node is handed as many requests as its quota says, the
/// heaviest node first, and each request is the oldest that waits. It
/// finishes when no slot is left, and fails where a slot is left but nothing
/// waits. A refresh uses no slot.
pub proof fn lemma_step_serves_next_slot(
    c: CursorView,
    ticked: bool,
    buffer: Seq<EnqueueRequest>,
    time: int,
)
    requires
        c.used >= 0,
    ensures
        match dispatch_from(c, ticked, buffer, time).step {
            DispatchView::Finished => slots_left(c).len() == 0,
            DispatchView::Refresh(next) => slots_left(next) == slots_left(c) && slots_left(c).len()
                > 0,
            DispatchView::Deliver(next, address, request) => {
                &&& slots_left(c) == seq![address] + slots_left(next)
                &&& buffer.len() > 0 && request == buffer[0]
                &&& next.used >= 0
            },
            DispatchView::Failed(_) => slots_left(c).len() > 0 && buffer.len() == 0,
        },
{
    lemma_settled_slots(c);
    lemma_used_stays(c);
    let at = settled(c);
    if 0 <= at.node < at.plan.len() {
        assert(slots_left(at) == seq![at.plan[at.node].address] + slots_left(
            CursorView { used: at.used + 1, ..at },
        ));
    }
}

/// Moving the cursor on never makes the count of used slots negative.
proof fn lemma_used_stays(c: CursorView)
    requires
        c.used >= 0,
    ensures
        settled(c).used >= 0,
    decreases c.plan.len() - c.node,
{
    if 0 <= c.node < c.plan.len() && c.used >= c.plan[c.node].quota {
        lemma_used_stays(CursorView { node: c.node + 1, used: 0, ..c });
    }
}

/// How far a distribution has come.
#[derive(Debug)]
pub struct Cursor {
    plan: Vec<Share>,
    node: usize,
    used: u128,
}

impl View for Cursor {
    type V = CursorView;

    closed spec fn view(&self) -> CursorView {
        CursorView { plan: self.plan@, node: self.node as int, used: self.used as int }
    }
}

/// A distribution that waits for the nodes to be probed.
#[derive(Debug)]
pub struct PendingRefresh {
    cursor: Cursor,
}

/// A distribution that waits for a request to be delivered.
#[derive(Debug)]
pub struct PendingDelivery {
    cursor: Cursor,
    address: String,
    request: EnqueueRequest,
}

impl PendingDelivery {
    pub closed spec fn spec_address(self) -> String {
        self.address
    }

    pub closed spec fn spec_request(self) -> EnqueueRequest {
        self.request
    }

    pub closed spec fn spec_cursor(self) -> CursorView {
        self.cursor@
    }

    /// The node to deliver to.
    pub fn address(&self) -> (address: &String)
        ensures
            *address == self.spec_address(),
    {
        &self.address
    }

    /// The request to deliver.
    pub fn request(&self) -> (request: &EnqueueRequest)
        ensures
            *request == self.spec_request(),
    {
        &self.request
    }
}

impl PendingRefresh {
    pub closed spec fn spec_cursor(self) -> CursorView {
        self.cursor@
    }
}

/// What a distribution does next.
#[derive(Debug)]
pub enum Dispatch {
    /// Probe the nodes, then call `refreshed`.
    Refresh(PendingRefresh),
    /// Deliver the request, then call `delivered`.
    Deliver(PendingDelivery),
    /// Every slot is used.
    Finished,
    /// The distribution stops here.
    Failed(RpcError),
}

impl View for Dispatch {
    type V = DispatchView;

    open spec fn view(&self) -> DispatchView {
        match *self {
            Dispatch::Refresh(pending) => DispatchView::Refresh(pending.spec_cursor()),
            Dispatch::Deliver(pending) => DispatchView::Deliver(
                pending.spec_cursor(),
                pending.spec_address(),
                pending.spec_request(),
            ),
            Dispatch::Finished => DispatchView::Finished,
            Dispatch::Failed(e) => DispatchView::Failed(e),
        }
    }
}

/// The state of the load balancer.
#[derive(Debug)]
pub struct LoadBalancer {
    buffer: Buffer,
    nodes: NodeList,
    clock: LogicalClock,
}

impl LoadBalancer {
    /// The requests that wait, the oldest first.
    pub closed spec fn buffer(self) -> Seq<EnqueueRequest> {
        self.buffer@
    }

    /// The node list, heaviest first.
    pub closed spec fn nodes(self) -> Seq<NodeView> {
        self.nodes@
    }

    /// The value the clock shows.
    pub closed spec fn time(self) -> int {
        self.clock@
    }

    /// A load balancer over the nodes at `addresses`: `probes[i]` is the raw
    /// weight that the node at `addresses[i]` reported, or `None` where its
    /// probe failed. The buffer is empty and the clock at zero.
    pub fn new(addresses: &Vec<String>, probes: &Vec<Option<i64>>) -> (balancer: Self)
        ensures
            balancer.nodes() == installed(addresses@, probes@),
            list_valid(balancer.nodes()),
            balancer.buffer() == Seq::<EnqueueRequest>::empty(),
            balancer.time() == 0,
    {
        LoadBalancer {
            buffer: Buffer::new(),
            nodes: NodeList::install(addresses, probes),
            clock: LogicalClock::new(),
        }
    }

    /// The node list.
    pub fn node_list(&self) -> (list: &NodeList)
        ensures
            list@ == self.nodes(),
            list_valid(self.nodes()),
    {
        let _: usize = self.nodes.len();
        &self.nodes
    }

    /// How many requests wait.
    pub fn buffered(&self) -> (n: usize)
        ensures
            n == self.buffer().len(),
    {
        self.buffer.len()
    }

    /// The value the clock shows; reading it is no event.
    pub fn now(&self) -> (value: u64)
        ensures
            value == self.time(),
    {
        self.clock.now()
    }

    /// Registers an event on the clock: returns the current value and
    /// advances the clock by one.
    pub fn increment_time(&mut self) -> (reading: u64)
        requires
            old(self).time() < u64::MAX,
        ensures
            reading == old(self).time(),
            final(self).time() == old(self).time() + 1,
            final(self).buffer() == old(self).buffer(),
            final(self).nodes() == old(self).nodes(),
    {
        self.clock.tick()
    }

    /// Appends a request to the buffer.
    pub fn insert(&mut self, job: EnqueueRequest)
        ensures
            final(self).buffer() == old(self).buffer().push(job),
            final(self).nodes() == old(self).nodes(),
            final(self).time() == old(self).time(),
    {
        self.buffer.insert(job);
    }

    /// Installs the list that a round of probes gives: `probes[i]` is the raw
    /// weight that the node at place `i` of the current list reported, or
    /// `None` where its probe failed. Nodes whose probe failed leave the
    /// list; the others are weighed anew and put heaviest first.
    pub fn refresh_weights(&mut self, probes: &Vec<Option<i64>>)
        ensures
            final(self).nodes() == installed(addresses_of(old(self).nodes()), probes@),
            list_valid(final(self).nodes()),
            final(self).buffer() == old(self).buffer(),
            final(self).time() == old(self).time(),
    {
        let addresses: Vec<String> = self.nodes.addresses();
        self.nodes = NodeList::install(&addresses, probes);
    }

    /// Takes a new node into the list, where its probe succeeded: `probe` is
    /// the raw weight the new node reported, and `probes[i]` what the node at
    /// place `i` of the current list reported in the same round. The list is
    /// then the one that this round of probes gives, the new node counted
    /// last. A new node whose probe failed changes nothing.
    pub fn add_node(&mut self, address: String, probe: Option<i64>, probes: &Vec<Option<i64>>)
        ensures
            probe.is_none() ==> final(self).nodes() == old(self).nodes(),
            probe.is_some() ==> final(self).nodes() == installed(
                addresses_of(old(self).nodes()).push(address),
                fitted(probes@, old(self).nodes().len() as int).push(probe),
            ),
            list_valid(final(self).nodes()),
            final(self).buffer() == old(self).buffer(),
            final(self).time() == old(self).time(),
    {
        let count: usize = self.nodes.len();
        if probe.is_none() {
            return ;
        }
        let mut addresses: Vec<String> = self.nodes.addresses();
        addresses.push(address);
        let mut all: Vec<Option<i64>> = Vec::new();
        let mut i: usize = 0;
        while i < count
            invariant
                i <= count,
                all@ == fitted(probes@, i as int),
            decreases count - i,
        {
            if i < probes.len() {
                all.push(probes[i]);
            } else {
                all.push(None);
            }
            i = i + 1;
            assert(all@ =~= fitted(probes@, i as int));
        }
        all.push(probe);
        self.nodes = NodeList::install(&addresses, &all);
    }

    /// The parts of all nodes in a distribution that begins now.
    pub fn plan(&self) -> (plan: Vec<Share>)
        ensures
            plan@ == plan_of(self.nodes()),
    {
        let count: usize = self.nodes.len();
        let mut plan: Vec<Share> = Vec::new();
        let mut i: usize = 0;
        while i < count
            invariant
                i <= count,
                count == self.nodes@.len(),
                plan@ == plan_of(self.nodes@).subrange(0, i as int),
            decreases count - i,
        {
            match self.nodes.get(i) {
                Some(node) => {
                    plan.push(
                        Share { address: node.address().clone(), quota: node.weight().quota(count) },
                    );
                },
                None => {},
            }
            i = i + 1;
            assert(plan@ =~= plan_of(self.nodes@).subrange(0, i as int));
        }
        assert(plan@ =~= plan_of(self.nodes@));
        plan
    }

    /// Takes the distribution on from `cursor` to its next step.
    fn advance(&mut self, cursor: Cursor, ticked: bool) -> (step: Dispatch)
        requires
            !ticked ==> old(self).time() < u64::MAX,
        ensures
            (Outcome { step: step@, buffer: final(self).buffer(), time: final(self).time() })
                == dispatch_from(cursor@, ticked, old(self).buffer(), old(self).time()),
            final(self).nodes() == old(self).nodes(),
    {
        let mut at: Cursor = cursor;
        while at.node < at.plan.len() && at.used >= at.plan[at.node].quota
            invariant
                settled(at@) == settled(cursor@),
            decreases at.plan.len() - at.node,
        {
            at.node = at.node + 1;
            at.used = 0;
        }
        if at.node >= at.plan.len() {
            return Dispatch::Finished;
        }
        if !ticked {
            let reading: u64 = self.clock.tick();
            if reading % REFRESH_INTERVAL == 0 {
                return Dispatch::Refresh(PendingRefresh { cursor: at });
            }
        }
        match self.buffer.pop_front() {
            None => Dispatch::Failed(RpcError::FailedRequest),
            Some(request) => {
                let address: String = at.plan[at.node].address.clone();
                at.used = at.used + 1;
                Dispatch::Deliver(PendingDelivery { cursor: at, address, request })
            },
        }
    }

    /// Begins a distribution over the node list as it stands, and takes it to
    /// its first step.
    pub fn distribute(&mut self) -> (step: Dispatch)
        requires
            old(self).time() < u64::MAX,
        ensures
            (Outcome { step: step@, buffer: final(self).buffer(), time: final(self).time() })
                == dispatch_from(
                CursorView { plan: plan_of(old(self).nodes()), node: 0, used: 0 },
                false,
                old(self).buffer(),
                old(self).time(),
            ),
            final(self).nodes() == old(self).nodes(),
    {
        let plan: Vec<Share> = self.plan();
        self.advance(Cursor { plan, node: 0, used: 0 }, false)
    }

    /// The nodes were probed: installs the list that `probes` gives, as
    /// `refresh_weights` does, and takes the distribution on over the plan it
    /// began with.
    pub fn refreshed(&mut self, pending: PendingRefresh, probes: &Vec<Option<i64>>) -> (step:
        Dispatch)
        ensures
            (Outcome { step: step@, buffer: final(self).buffer(), time: final(self).time() })
                == dispatch_from(
                pending.spec_cursor(),
                true,
                old(self).buffer(),
                old(self).time(),
            ),
            final(self).nodes() == installed(addresses_of(old(self).nodes()), probes@),
            list_valid(final(self).nodes()),
    {
        self.refresh_weights(probes);
        self.advance(pending.cursor, true)
    }

    /// The delivery is over. Where it failed the distribution stops, and what
    /// is in the buffer stays there; else the distribution goes on.
    pub fn delivered(&mut self, pending: PendingDelivery, ok: bool) -> (step: Dispatch)
        requires
            ok ==> old(self).time() < u64::MAX,
        ensures
            ok ==> (Outcome {
                step: step@,
                buffer: final(self).buffer(),
                time: final(self).time(),
            }) == dispatch_from(
                pending.spec_cursor(),
                false,
                old(self).buffer(),
                old(self).time(),
            ),
            !ok ==> {
                &&& step@ == DispatchView::Failed(RpcError::FailedRequest)
                &&& final(self).buffer() == old(self).buffer()
                &&& final(self).time() == old(self).time()
            },
            final(self).nodes() == old(self).nodes(),
    {
        if ok {
            self.advance(pending.cursor, false)
        } else {
            Dispatch::Failed(RpcError::FailedRequest)
        }
    }
}

} // verus!
