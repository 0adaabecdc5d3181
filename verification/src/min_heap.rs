//! The aging min-heap that orders pending jobs.

use vstd::prelude::*;
use vstd::seq_lib::to_multiset_contains;
use crate::aging::AgingFactor;
use crate::text::{around_number, decimal_text};
use crate::heap_order::{
    admitted,
    aged,
    aged_node,
    descend_to,
    heapify,
    heapify_below,
    is_min_heap,
    lemma_heapify,
    lemma_insert,
    lemma_position_of,
    lemma_root_is_least,
    lemma_with_priority,
    lemma_without_top,
    position_of,
    sift_down,
    sift_up,
    swapped,
    with_priority,
    without_top,
};

verus! {

/// One pending job as the heap sees it.
#[derive(Debug, Clone, Copy, PartialEq, Eq, Structural)]
pub struct HeapNode {
    /// The job this node stands for.
    pub job_id: u64,
    /// The priority the job was given; a lower value is more urgent.
    pub priority: u32,
    /// The priority after aging: the key the heap orders by.
    pub effective_priority: u32,
    /// The logical time at which the job entered the heap.
    pub enqueue_time: u64,
}

/// A node in words: its priority and its job.
pub open spec fn node_text(node: HeapNode) -> Seq<char> {
    "HeapNode {\n\tpriority: "@ + decimal_text(node.priority as nat) + "\n\tjob_id: "@
        + decimal_text(node.job_id as nat) + "\n}\n"@
}

impl HeapNode {
    /// The node in words, for a log.
    pub fn describe(&self) -> (text: String)
        ensures
            text@ == node_text(*self),
    {
        let mut text: String = around_number("HeapNode {\n\tpriority: ", self.priority as u64, "\n\tjob_id: ");
        let rest: String = around_number("", self.job_id, "\n}\n");
        proof {
            reveal_strlit("");
        }
        text.append(rest.as_str());
        assert(text@ =~= node_text(*self));
        text
    }

    /// A node that has not aged yet: its effective priority is its priority.
    pub fn new(job_id: u64, priority: u32, timestamp: u64) -> (node: Self)
        ensures
            node == (HeapNode {
                job_id,
                priority,
                effective_priority: priority,
                enqueue_time: timestamp,
            }),
    {
        HeapNode { job_id, priority, effective_priority: priority, enqueue_time: timestamp }
    }
}

/// A binary min-heap of jobs keyed by effective priority. Its view is the
/// sequence of nodes in heap layout, root first.
#[derive(Debug)]
pub struct MinHeap {
    heap: Vec<HeapNode>,
    aging_factor: AgingFactor,
}

impl View for MinHeap {
    type V = Seq<HeapNode>;

    closed spec fn view(&self) -> Seq<HeapNode> {
        self.heap@
    }
}

/// Exchanges the nodes at `i` and `j`.
fn swap_nodes(nodes: &mut Vec<HeapNode>, i: usize, j: usize)
    requires
        i < old(nodes).len(),
        j < old(nodes).len(),
    ensures
        final(nodes)@ == swapped(old(nodes)@, i as int, j as int),
{
    let a: HeapNode = nodes[i];
    let b: HeapNode = nodes[j];
    nodes.set(i, b);
    nodes.set(j, a);
}

/// Moves the node at `index` towards the root until its parent is not less
/// urgent than it.
fn bubble_up(nodes: &mut Vec<HeapNode>, index: usize)
    requires
        index < old(nodes).len(),
    ensures
        final(nodes)@ == sift_up(old(nodes)@, index as int),
        final(nodes)@.len() == old(nodes)@.len(),
{
    let mut i: usize = index;
    while i > 0 && nodes[(i - 1) / 2].effective_priority > nodes[i].effective_priority
        invariant
            i < nodes.len(),
            nodes.len() == old(nodes).len(),
            sift_up(nodes@, i as int) == sift_up(old(nodes)@, index as int),
        decreases i,
    {
        let up: usize = (i - 1) / 2;
        swap_nodes(nodes, i, up);
        i = up;
    }
}

/// Moves the node at `index` away from the root while one of its children is
/// strictly more urgent than it, towards the more urgent child, the left one
/// on a tie.
fn bubble_down(nodes: &mut Vec<HeapNode>, index: usize)
    ensures
        final(nodes)@ == sift_down(old(nodes)@, index as int),
        final(nodes)@.len() == old(nodes)@.len(),
{
    let len: usize = nodes.len();
    if index >= len {
        return ;
    }
    let mut i: usize = index;
    let mut settled: bool = false;
    while !settled
        invariant
            i < len,
            nodes.len() == len,
            len == old(nodes).len(),
            sift_down(nodes@, i as int) == sift_down(old(nodes)@, index as int),
            settled ==> descend_to(nodes@, i as int) == i,
        decreases len - i + (if settled { 0int } else { 1int }),
    {
        if i >= len / 2 {
            settled = true;
        } else {
            let left: usize = 2 * i + 1;
            let right: usize = left + 1;
            let mut child: usize = left;
            if right < len && nodes[right].effective_priority < nodes[left].effective_priority {
                child = right;
            }
            if nodes[child].effective_priority < nodes[i].effective_priority {
                swap_nodes(nodes, i, child);
                i = child;
            } else {
                settled = true;
            }
        }
    }
}

impl MinHeap {
    #[verifier::type_invariant]
    closed spec fn well_formed(self) -> bool {
        is_min_heap(self.heap@) && self.aging_factor.valid()
    }

    /// The factor by which this heap ages its jobs.
    pub closed spec fn factor(self) -> AgingFactor {
        self.aging_factor
    }

    /// An empty heap that ages its jobs by `aging_factor`.
    pub fn new(aging_factor: AgingFactor) -> (heap: Self)
        ensures
            heap@ == Seq::<HeapNode>::empty(),
            heap.factor() == aging_factor,
    {
        proof {
            use_type_invariant(&aging_factor);
        }
        MinHeap { heap: Vec::new(), aging_factor }
    }

    /// The nodes in heap layout, root first.
    pub fn heap(&self) -> (nodes: &Vec<HeapNode>)
        ensures
            nodes@ == self@,
            is_min_heap(nodes@),
    {
        proof {
            use_type_invariant(self);
        }
        &self.heap
    }

    pub fn aging_factor(&self) -> (factor: AgingFactor)
        ensures
            factor == self.factor(),
            factor.valid(),
    {
        proof {
            use_type_invariant(self);
        }
        self.aging_factor
    }

    pub fn len(&self) -> (n: usize)
        ensures
            n == self@.len(),
    {
        self.heap.len()
    }

    pub fn is_empty(&self) -> (empty: bool)
        ensures
            empty == (self@.len() == 0),
    {
        self.heap.len() == 0
    }

    /// Inserts a job: a node with its effective priority equal to its priority
    /// is appended and sifted up.
    pub fn insert(&mut self, priority: u32, job_id: u64, timestamp: u64)
        ensures
            final(self)@ == sift_up(
                old(self)@.push(
                    HeapNode {
                        job_id,
                        priority,
                        effective_priority: priority,
                        enqueue_time: timestamp,
                    },
                ),
                old(self)@.len() as int,
            ),
            is_min_heap(final(self)@),
            final(self)@.len() == old(self)@.len() + 1,
            final(self)@.to_multiset() == old(self)@.to_multiset().insert(
                HeapNode {
                    job_id,
                    priority,
                    effective_priority: priority,
                    enqueue_time: timestamp,
                },
            ),
            final(self).factor() == old(self).factor(),
    {
        proof {
            use_type_invariant(&*self);
        }
        let node: HeapNode = HeapNode::new(job_id, priority, timestamp);
        let mut nodes: Vec<HeapNode> = Vec::new();
        std::mem::swap(&mut nodes, &mut self.heap);
        nodes.push(node);
        let last: usize = nodes.len() - 1;
        bubble_up(&mut nodes, last);
        proof {
            lemma_insert(old(self)@, node);
        }
        self.heap = nodes;
    }

    /// Admits a job at logical time `now`: inserts it with `now` as its
    /// enqueue time, then brings every effective priority to `now`.
    pub fn enqueue(&mut self, priority: u32, job_id: u64, now: u64)
        ensures
            final(self)@ == admitted(old(self)@, old(self).factor(), priority, job_id, now),
            is_min_heap(final(self)@),
            final(self)@.len() == old(self)@.len() + 1,
            final(self).factor() == old(self).factor(),
    {
        self.insert(priority, job_id, now);
        self.calculate_effective_priority(now);
    }

    /// Extracts the most urgent job: the root leaves, the last node takes its
    /// place and is sifted down. Returns `None` on an empty heap.
    pub fn get_top(&mut self) -> (top: Option<HeapNode>)
        ensures
            old(self)@.len() == 0 ==> top.is_none() && final(self)@ == old(self)@,
            old(self)@.len() > 0 ==> top == Some(old(self)@[0]),
            final(self)@ == without_top(old(self)@),
            is_min_heap(final(self)@),
            top matches Some(node) ==> {
                &&& final(self)@.len() == old(self)@.len() - 1
                &&& final(self)@.to_multiset() == old(self)@.to_multiset().remove(node)
                &&& forall|i: int|
                    0 <= i < final(self)@.len() ==> node.effective_priority <= (
                    #[trigger] final(self)@[i]).effective_priority
            },
            final(self).factor() == old(self).factor(),
    {
        proof {
            use_type_invariant(&*self);
        }
        if self.heap.len() == 0 {
            assert(self.heap@ =~= without_top(self.heap@));
            return None;
        }
        let mut nodes: Vec<HeapNode> = Vec::new();
        std::mem::swap(&mut nodes, &mut self.heap);
        let top: HeapNode = nodes[0];
        let last: Option<HeapNode> = nodes.pop();
        if nodes.len() > 0 {
            match last {
                Some(node) => {
                    nodes.set(0, node);
                    bubble_down(&mut nodes, 0);
                },
                None => {},
            }
        }
        proof {
            lemma_without_top(old(self)@);
            assert(nodes@ =~= without_top(old(self)@));
            lemma_top_is_least(old(self)@);
        }
        self.heap = nodes;
        Some(top)
    }

    /// The most urgent job, which stays in the heap, or `None` on an empty
    /// heap.
    pub fn peek(&self) -> (top: Option<&HeapNode>)
        ensures
            self@.len() == 0 ==> top.is_none(),
            self@.len() > 0 ==> top == Some(&self@[0]),
            top matches Some(node) ==> forall|i: int|
                0 <= i < self@.len() ==> node.effective_priority <= (
                #[trigger] self@[i]).effective_priority,
    {
        proof {
            use_type_invariant(self);
        }
        if self.heap.len() == 0 {
            None
        } else {
            proof {
                assert forall|i: int| 0 <= i < self@.len() implies self@[0].effective_priority <= (
                #[trigger] self@[i]).effective_priority by {
                    lemma_root_is_least(self@, i);
                }
            }
            Some(&self.heap[0])
        }
    }

    /// Gives the first node that holds `job_id` the priority `new_priority`,
    /// as its priority and as its effective priority, and sifts it to its
    /// place. Returns whether there was such a node.
    pub fn change_priority(&mut self, job_id: u64, new_priority: u32) -> (found: bool)
        ensures
            found <==> exists|i: int| 0 <= i < old(self)@.len() && old(self)@[i].job_id == job_id,
            found <==> position_of(old(self)@, job_id) < old(self)@.len(),
            !found ==> final(self)@ == old(self)@,
            found ==> final(self)@ == with_priority(
                old(self)@,
                position_of(old(self)@, job_id),
                new_priority,
            ),
            is_min_heap(final(self)@),
            final(self)@.len() == old(self)@.len(),
            final(self).factor() == old(self).factor(),
    {
        proof {
            use_type_invariant(&*self);
            lemma_position_of(self@, job_id);
        }
        let len: usize = self.heap.len();
        let mut target: usize = 0;
        while target < len && self.heap[target].job_id != job_id
            invariant
                target <= len,
                len == self.heap@.len(),
                forall|k: int| 0 <= k < target ==> (#[trigger] self.heap@[k]).job_id != job_id,
            decreases len - target,
        {
            target = target + 1;
        }
        if target >= len {
            return false;
        }
        assert(target == position_of(self@, job_id));
        let mut nodes: Vec<HeapNode> = Vec::new();
        std::mem::swap(&mut nodes, &mut self.heap);
        let node: HeapNode = nodes[target];
        nodes.set(
            target,
            HeapNode { priority: new_priority, effective_priority: new_priority, ..node },
        );
        if new_priority < node.effective_priority {
            bubble_up(&mut nodes, target);
        } else {
            bubble_down(&mut nodes, target);
        }
        proof {
            lemma_with_priority(old(self)@, target as int, new_priority);
        }
        self.heap = nodes;
        true
    }

    /// Brings every effective priority to the logical time `timestamp` and
    /// rebuilds the heap bottom-up. Priorities, job ids and enqueue times stay.
    pub fn calculate_effective_priority(&mut self, timestamp: u64)
        ensures
            final(self)@ == heapify(aged(old(self)@, old(self).factor(), timestamp)),
            is_min_heap(final(self)@),
            final(self)@.len() == old(self)@.len(),
            final(self)@.to_multiset() == aged(
                old(self)@,
                old(self).factor(),
                timestamp,
            ).to_multiset(),
            final(self).factor() == old(self).factor(),
    {
        proof {
            use_type_invariant(&*self);
        }
        let factor: AgingFactor = self.aging_factor;
        let mut nodes: Vec<HeapNode> = Vec::new();
        std::mem::swap(&mut nodes, &mut self.heap);
        let len: usize = nodes.len();
        let mut i: usize = 0;
        while i < len
            invariant
                i <= len,
                nodes.len() == len,
                len == old(self)@.len(),
                factor == old(self).factor(),
                forall|k: int| 0 <= k < i ==> #[trigger] nodes@[k] == aged_node(old(self)@[k], factor, timestamp),
                forall|k: int| i <= k < len ==> #[trigger] nodes@[k] == old(self)@[k],
            decreases len - i,
        {
            let node: HeapNode = nodes[i];
            let effective: u32 = factor.effective_priority(
                node.priority,
                node.enqueue_time,
                timestamp,
            );
            nodes.set(i, HeapNode { effective_priority: effective, ..node });
            i = i + 1;
        }
        let ghost start: Seq<HeapNode> = nodes@;
        assert(start =~= aged(old(self)@, factor, timestamp));
        let mut k: usize = len / 2;
        while k > 0
            invariant
                k <= len / 2,
                nodes.len() == len,
                heapify_below(nodes@, k as int) == heapify(start),
                start.len() == len,
            decreases k,
        {
            k = k - 1;
            bubble_down(&mut nodes, k);
        }
        proof {
            lemma_heapify(start);
        }
        self.heap = nodes;
    }
}

/// The root of a heap is at least as urgent as every node that is left when
/// it is taken out.
pub proof fn lemma_top_is_least(s: Seq<HeapNode>)
    requires
        is_min_heap(s),
        s.len() > 0,
    ensures
        forall|i: int|
            0 <= i < without_top(s).len() ==> s[0].effective_priority <= (#[trigger] without_top(
                s,
            )[i]).effective_priority,
{
    let rest = without_top(s);
    lemma_without_top(s);
    assert forall|i: int| 0 <= i < rest.len() implies s[0].effective_priority <= (#[trigger] rest[i]).effective_priority by {
        let node = rest[i];
        assert(rest.contains(node));
        to_multiset_contains(rest, node);
        to_multiset_contains(s, node);
        let j = choose|j: int| 0 <= j < s.len() && s[j] == node;
        lemma_root_is_least(s, j);
    }
}

} // verus!
