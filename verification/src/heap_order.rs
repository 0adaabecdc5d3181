//! The shape of a binary min-heap laid out in a sequence, and what the
//! sifting steps do to it.
//!
//! Index `i` has its parent at `(i - 1) / 2` and its children at `2i + 1` and
//! `2i + 2`. The ordering key is the effective priority.

use vstd::prelude::*;
use vstd::seq_lib::{to_multiset_build, to_multiset_contains, to_multiset_update};
use crate::aging::AgingFactor;
use crate::min_heap::HeapNode;

verus! {

pub open spec fn parent(i: int) -> int {
    (i - 1) / 2
}

/// Node `j` is not more urgent than its parent.
pub open spec fn below_parent(s: Seq<HeapNode>, j: int) -> bool {
    s[parent(j)].effective_priority <= s[j].effective_priority
}

/// Node `c` is not more urgent than its grandparent.
pub open spec fn below_grandparent(s: Seq<HeapNode>, c: int) -> bool {
    s[parent(parent(c))].effective_priority <= s[c].effective_priority
}

/// Heap order: every node but the root is at or after its parent.
pub open spec fn is_min_heap(s: Seq<HeapNode>) -> bool {
    forall|i: int| 0 < i < s.len() ==> #[trigger] below_parent(s, i)
}

/// Heap order on the part of the tree whose parents are at `lo` or later.
pub open spec fn ordered_from(s: Seq<HeapNode>, lo: int) -> bool {
    forall|j: int| 0 < j < s.len() && parent(j) >= lo ==> #[trigger] below_parent(s, j)
}

/// Heap order from `lo` on, but for the node at `i`, which may be too large
/// for its place: nothing is claimed of `i` against its children, and its
/// children are known to be at or after its parent.
pub open spec fn ordered_but_down(s: Seq<HeapNode>, lo: int, i: int) -> bool {
    &&& forall|j: int|
        0 < j < s.len() && parent(j) >= lo && parent(j) != i ==> #[trigger] below_parent(s, j)
    &&& forall|c: int|
        0 < c < s.len() && parent(c) == i && i > 0 && parent(i) >= lo
            ==> #[trigger] below_grandparent(s, c)
}

/// Heap order but for the node at `i`, which may be too small for its place:
/// nothing is claimed of `i` against its parent, and its children are known
/// to be at or after its parent.
pub open spec fn ordered_but_up(s: Seq<HeapNode>, i: int) -> bool {
    &&& forall|j: int| 0 < j < s.len() && j != i ==> #[trigger] below_parent(s, j)
    &&& forall|c: int|
        0 < c < s.len() && parent(c) == i && i > 0 ==> #[trigger] below_grandparent(s, c)
}

/// The sequence with the nodes at `i` and `j` exchanged.
pub open spec fn swapped(s: Seq<HeapNode>, i: int, j: int) -> Seq<HeapNode> {
    s.update(i, s[j]).update(j, s[i])
}

/// Sift-up from `i`: while the node is strictly more urgent than its parent,
/// exchange the two and go on from the parent.
pub open spec fn sift_up(s: Seq<HeapNode>, i: int) -> Seq<HeapNode>
    decreases i,
{
    if 0 < i < s.len() && s[parent(i)].effective_priority > s[i].effective_priority {
        sift_up(swapped(s, i, parent(i)), parent(i))
    } else {
        s
    }
}

/// Where a sift-down step at `i` goes: to the child that is strictly more
/// urgent than the other (the left one on a tie, or when it is the only one),
/// if that child is strictly more urgent than `i`; else it stays at `i`.
pub open spec fn descend_to(s: Seq<HeapNode>, i: int) -> int {
    let left = 2 * i + 1;
    let right = 2 * i + 2;
    if 0 <= i && left < s.len() {
        let child = if right < s.len() && s[right].effective_priority
            < s[left].effective_priority {
            right
        } else {
            left
        };
        if s[child].effective_priority < s[i].effective_priority {
            child
        } else {
            i
        }
    } else {
        i
    }
}

/// Sift-down from `i`: exchange the node with the child `descend_to` names
/// and go on from there, until it names no child.
pub open spec fn sift_down(s: Seq<HeapNode>, i: int) -> Seq<HeapNode>
    decreases s.len() - i,
{
    let child = descend_to(s, i);
    if child != i {
        sift_down(swapped(s, i, child), child)
    } else {
        s
    }
}

/// Sift-down at every index below `k`, from `k - 1` back to the root.
pub open spec fn heapify_below(s: Seq<HeapNode>, k: int) -> Seq<HeapNode>
    decreases k,
{
    if k <= 0 {
        s
    } else {
        heapify_below(sift_down(s, k - 1), k - 1)
    }
}

/// Bottom-up heap construction: sift-down at every node that has a child,
/// last one first.
pub open spec fn heapify(s: Seq<HeapNode>) -> Seq<HeapNode> {
    heapify_below(s, s.len() as int / 2)
}

/// The heap with its root taken out: the last node moves to the root and is
/// sifted down.
pub open spec fn without_top(s: Seq<HeapNode>) -> Seq<HeapNode> {
    if s.len() <= 1 {
        Seq::empty()
    } else {
        sift_down(s.drop_last().update(0, s.last()), 0)
    }
}

/// The heap after `k` extractions.
pub open spec fn remaining(s: Seq<HeapNode>, k: nat) -> Seq<HeapNode>
    decreases k,
{
    if k == 0 {
        s
    } else {
        without_top(remaining(s, (k - 1) as nat))
    }
}

/// The node that the extraction after `k` earlier ones returns.
pub open spec fn extracted(s: Seq<HeapNode>, k: nat) -> HeapNode {
    remaining(s, k)[0]
}

/// A node with its effective priority brought to `now`; nothing else changes.
pub open spec fn aged_node(node: HeapNode, factor: AgingFactor, now: u64) -> HeapNode {
    HeapNode {
        effective_priority: factor.effective_at(node.priority, node.enqueue_time, now) as u32,
        ..node
    }
}

/// Every node aged to `now`, each in its place.
pub open spec fn aged(s: Seq<HeapNode>, factor: AgingFactor, now: u64) -> Seq<HeapNode> {
    Seq::new(s.len(), |i: int| aged_node(s[i], factor, now))
}

/// The heap after a job enters it at logical time `now`: the node is
/// inserted, then every effective priority is brought to `now` and the heap
/// rebuilt.
pub open spec fn admitted(
    s: Seq<HeapNode>,
    factor: AgingFactor,
    priority: u32,
    job_id: u64,
    now: u64,
) -> Seq<HeapNode> {
    heapify(
        aged(
            sift_up(
                s.push(
                    HeapNode { job_id, priority, effective_priority: priority, enqueue_time: now },
                ),
                s.len() as int,
            ),
            factor,
            now,
        ),
    )
}

/// The least index that holds `job_id`, or the length where none does.
pub open spec fn position_of(s: Seq<HeapNode>, job_id: u64) -> int
    decreases s.len(),
{
    if s.len() == 0 {
        0
    } else if s[0].job_id == job_id {
        0
    } else {
        1 + position_of(s.drop_first(), job_id)
    }
}

/// The node with both priorities set to `priority`.
pub open spec fn reprioritized(node: HeapNode, priority: u32) -> HeapNode {
    HeapNode { priority, effective_priority: priority, ..node }
}

/// The heap after the node at `i` takes a new priority: the node is sifted up
/// where its key fell, down where it rose.
pub open spec fn with_priority(s: Seq<HeapNode>, i: int, priority: u32) -> Seq<HeapNode> {
    let changed = s.update(i, reprioritized(s[i], priority));
    if priority < s[i].effective_priority {
        sift_up(changed, i)
    } else {
        sift_down(changed, i)
    }
}

/// One operation on a heap.
pub enum HeapOp {
    Insert { priority: u32, job_id: u64, timestamp: u64 },
    ExtractTop,
    ChangePriority { job_id: u64, new_priority: u32 },
    Recompute { now: u64 },
}

/// The layout that one operation leaves.
pub open spec fn after_op(s: Seq<HeapNode>, factor: AgingFactor, op: HeapOp) -> Seq<HeapNode> {
    match op {
        HeapOp::Insert { priority, job_id, timestamp } => sift_up(
            s.push(
                HeapNode { job_id, priority, effective_priority: priority, enqueue_time: timestamp },
            ),
            s.len() as int,
        ),
        HeapOp::ExtractTop => without_top(s),
        HeapOp::ChangePriority { job_id, new_priority } => if position_of(s, job_id) < s.len() {
            with_priority(s, position_of(s, job_id), new_priority)
        } else {
            s
        },
        HeapOp::Recompute { now } => heapify(aged(s, factor, now)),
    }
}

/// The layout that the first `k` of `ops` leave, begun on `s`.
pub open spec fn after_ops(s: Seq<HeapNode>, factor: AgingFactor, ops: Seq<HeapOp>, k: int) -> Seq<
    HeapNode,
>
    decreases k,
{
    if k <= 0 {
        s
    } else {
        after_op(after_ops(s, factor, ops, k - 1), factor, ops[k - 1])
    }
}

pub proof fn lemma_swapped(s: Seq<HeapNode>, i: int, j: int)
    requires
        0 <= i < s.len(),
        0 <= j < s.len(),
    ensures
        swapped(s, i, j).len() == s.len(),
        swapped(s, i, j).to_multiset() == s.to_multiset(),
{
    broadcast use vstd::multiset::group_multiset_axioms;

    let mid = s.update(i, s[j]);
    to_multiset_update(s, i, s[j]);
    to_multiset_update(mid, j, s[i]);
    assert(s.contains(s[i]));
    assert(s.contains(s[j]));
    to_multiset_contains(s, s[i]);
    to_multiset_contains(s, s[j]);
    assert(swapped(s, i, j).to_multiset() =~= s.to_multiset());
}

/// Sift-up keeps the nodes and repairs the order, where the order was broken
/// only between `i` and its parent.
pub proof fn lemma_sift_up(s: Seq<HeapNode>, i: int)
    requires
        0 <= i < s.len(),
        ordered_but_up(s, i),
    ensures
        is_min_heap(sift_up(s, i)),
        sift_up(s, i).len() == s.len(),
        sift_up(s, i).to_multiset() == s.to_multiset(),
    decreases i,
{
    if 0 < i && s[parent(i)].effective_priority > s[i].effective_priority {
        let p = parent(i);
        let t = swapped(s, i, p);
        lemma_swapped(s, i, p);
        assert forall|j: int| 0 < j < t.len() && j != p implies #[trigger] below_parent(t, j) by {
            if j == i {
            } else if parent(j) == i {
                assert(below_grandparent(s, j));
            } else {
                assert(below_parent(s, j));
            }
        }
        assert forall|c: int| 0 < c < t.len() && parent(c) == p && p > 0 implies #[trigger]
            below_grandparent(t, c) by {
            assert(below_parent(s, p));
            if c != i {
                assert(below_parent(s, c));
            }
        }
        lemma_sift_up(t, p);
    } else {
        assert forall|j: int| 0 < j < s.len() implies #[trigger] below_parent(s, j) by {
            if j != i {
                assert(below_parent(s, j));
            }
        }
    }
}

/// Sift-down keeps the nodes and repairs the order from `lo` on, where the
/// order was broken only between `i` and its children.
pub proof fn lemma_sift_down(s: Seq<HeapNode>, lo: int, i: int)
    requires
        0 <= lo <= i,
        ordered_but_down(s, lo, i),
    ensures
        ordered_from(sift_down(s, i), lo),
        sift_down(s, i).len() == s.len(),
        sift_down(s, i).to_multiset() == s.to_multiset(),
    decreases s.len() - i,
{
    let child = descend_to(s, i);
    if child != i {
        let t = swapped(s, i, child);
        lemma_swapped(s, i, child);
        assert forall|j: int|
            0 < j < t.len() && parent(j) >= lo && parent(j) != child implies #[trigger] below_parent(
            t,
            j,
        ) by {
            if j == i {
                assert(below_grandparent(s, child));
            } else if parent(j) == i {
            } else {
                assert(below_parent(s, j));
            }
        }
        assert forall|c: int|
            0 < c < t.len() && parent(c) == child && child > 0 && parent(child) >= lo implies #[trigger]
            below_grandparent(t, c) by {
            assert(below_parent(s, c));
        }
        lemma_sift_down(t, lo, child);
    } else {
        assert forall|j: int| 0 < j < s.len() && parent(j) >= lo implies #[trigger] below_parent(
            s,
            j,
        ) by {
            if parent(j) != i {
                assert(below_parent(s, j));
            }
        }
    }
}

pub proof fn lemma_heapify_below(s: Seq<HeapNode>, k: int)
    requires
        0 <= k <= s.len(),
        ordered_from(s, k),
    ensures
        is_min_heap(heapify_below(s, k)),
        heapify_below(s, k).len() == s.len(),
        heapify_below(s, k).to_multiset() == s.to_multiset(),
    decreases k,
{
    if k <= 0 {
        assert forall|j: int| 0 < j < s.len() implies #[trigger] below_parent(s, j) by {}
    } else {
        assert forall|j: int|
            0 < j < s.len() && parent(j) >= k - 1 && parent(j) != k - 1 implies #[trigger] below_parent(
            s,
            j,
        ) by {}
        lemma_sift_down(s, k - 1, k - 1);
        lemma_heapify_below(sift_down(s, k - 1), k - 1);
    }
}

/// Bottom-up construction turns any sequence into a heap of the same nodes.
pub proof fn lemma_heapify(s: Seq<HeapNode>)
    ensures
        is_min_heap(heapify(s)),
        heapify(s).len() == s.len(),
        heapify(s).to_multiset() == s.to_multiset(),
{
    lemma_heapify_below(s, s.len() as int / 2);
}

/// In a heap no node is more urgent than the root.
pub proof fn lemma_root_is_least(s: Seq<HeapNode>, i: int)
    requires
        is_min_heap(s),
        0 <= i < s.len(),
    ensures
        s[0].effective_priority <= s[i].effective_priority,
    decreases i,
{
    if i > 0 {
        assert(below_parent(s, i));
        lemma_root_is_least(s, parent(i));
    }
}

/// Appending a node and sifting it up gives a heap of the old nodes and the
/// new one.
pub proof fn lemma_insert(s: Seq<HeapNode>, node: HeapNode)
    requires
        is_min_heap(s),
    ensures
        is_min_heap(sift_up(s.push(node), s.len() as int)),
        sift_up(s.push(node), s.len() as int).len() == s.len() + 1,
        sift_up(s.push(node), s.len() as int).to_multiset() == s.to_multiset().insert(node),
{
    let t = s.push(node);
    assert forall|j: int| 0 < j < t.len() && j != s.len() implies #[trigger] below_parent(t, j) by {
        assert(below_parent(s, j));
    }
    lemma_sift_up(t, s.len() as int);
    to_multiset_build(s, node);
}

/// Taking the root out of a heap leaves a heap of the other nodes.
pub proof fn lemma_without_top(s: Seq<HeapNode>)
    requires
        is_min_heap(s),
        s.len() > 0,
    ensures
        is_min_heap(without_top(s)),
        without_top(s).len() == s.len() - 1,
        without_top(s).to_multiset() == s.to_multiset().remove(s[0]),
{
    if s.len() == 1 {
        assert(s =~= Seq::<HeapNode>::empty().push(s[0]));
        to_multiset_build(Seq::<HeapNode>::empty(), s[0]);
        assert(without_top(s).to_multiset() =~= s.to_multiset().remove(s[0]));
    } else {
        let front = s.drop_last();
        let t = front.update(0, s.last());
        assert(s =~= front.push(s.last()));
        to_multiset_build(front, s.last());
        to_multiset_update(front, 0, s.last());
        assert forall|j: int|
            0 < j < t.len() && parent(j) >= 0 && parent(j) != 0 implies #[trigger] below_parent(
            t,
            j,
        ) by {
            assert(below_parent(s, j));
        }
        lemma_sift_down(t, 0, 0);
        assert forall|j: int| 0 < j < without_top(s).len() implies #[trigger] below_parent(
            without_top(s),
            j,
        ) by {}
    }
}

/// Giving the node at `i` a new priority and sifting it leaves a heap of the
/// same length.
pub proof fn lemma_with_priority(s: Seq<HeapNode>, i: int, priority: u32)
    requires
        is_min_heap(s),
        0 <= i < s.len(),
    ensures
        is_min_heap(with_priority(s, i, priority)),
        with_priority(s, i, priority).len() == s.len(),
        with_priority(s, i, priority).to_multiset() == s.to_multiset().insert(
            reprioritized(s[i], priority),
        ).remove(s[i]),
{
    let t = s.update(i, reprioritized(s[i], priority));
    to_multiset_update(s, i, reprioritized(s[i], priority));
    if priority < s[i].effective_priority {
        assert forall|j: int| 0 < j < t.len() && j != i implies #[trigger] below_parent(t, j) by {
            assert(below_parent(s, j));
        }
        assert forall|c: int| 0 < c < t.len() && parent(c) == i && i > 0 implies #[trigger]
            below_grandparent(t, c) by {
            assert(below_parent(s, c));
            assert(below_parent(s, i));
        }
        lemma_sift_up(t, i);
    } else {
        assert forall|j: int|
            0 < j < t.len() && parent(j) >= 0 && parent(j) != i implies #[trigger] below_parent(
            t,
            j,
        ) by {
            assert(below_parent(s, j));
        }
        assert forall|c: int|
            0 < c < t.len() && parent(c) == i && i > 0 && parent(i) >= 0 implies #[trigger]
            below_grandparent(t, c) by {
            assert(below_parent(s, c));
            assert(below_parent(s, i));
        }
        lemma_sift_down(t, 0, i);
        assert forall|j: int| 0 < j < sift_down(t, i).len() implies #[trigger] below_parent(
            sift_down(t, i),
            j,
        ) by {}
    }
}

/// What `position_of` finds: nothing before it holds the job, and where it is
/// inside the sequence the node there does.
pub proof fn lemma_position_of(s: Seq<HeapNode>, job_id: u64)
    ensures
        0 <= position_of(s, job_id) <= s.len(),
        position_of(s, job_id) < s.len() ==> s[position_of(s, job_id)].job_id == job_id,
        forall|k: int| 0 <= k < position_of(s, job_id) ==> (#[trigger] s[k]).job_id != job_id,
    decreases s.len(),
{
    if s.len() > 0 && s[0].job_id != job_id {
        let rest = s.drop_first();
        lemma_position_of(rest, job_id);
        assert forall|k: int| 0 <= k < position_of(s, job_id) implies (#[trigger] s[k]).job_id
            != job_id by {
            if k > 0 {
                assert(s[k] == rest[k - 1]);
            }
        }
    }
}

/// Heap order: every operation leaves a heap.
pub proof fn lemma_op_keeps_heap_order(s: Seq<HeapNode>, factor: AgingFactor, op: HeapOp)
    requires
        is_min_heap(s),
    ensures
        is_min_heap(after_op(s, factor, op)),
{
    match op {
        HeapOp::Insert { priority, job_id, timestamp } => {
            lemma_insert(
                s,
                HeapNode { job_id, priority, effective_priority: priority, enqueue_time: timestamp },
            );
        },
        HeapOp::ExtractTop => {
            if s.len() > 0 {
                lemma_without_top(s);
            }
        },
        HeapOp::ChangePriority { job_id, new_priority } => {
            lemma_position_of(s, job_id);
            if position_of(s, job_id) < s.len() {
                lemma_with_priority(s, position_of(s, job_id), new_priority);
            }
        },
        HeapOp::Recompute { now } => {
            lemma_heapify(aged(s, factor, now));
        },
    }
}

/// Heap order: after any sequence of insertions, extractions, changes of
/// priority and recomputations, begun on the empty heap, every node but the
/// root is at or after its parent.
pub proof fn lemma_heap_order_always(factor: AgingFactor, ops: Seq<HeapOp>, k: int)
    requires
        0 <= k <= ops.len(),
    ensures
        is_min_heap(after_ops(Seq::empty(), factor, ops, k)),
    decreases k,
{
    if k > 0 {
        lemma_heap_order_always(factor, ops, k - 1);
        lemma_op_keeps_heap_order(
            after_ops(Seq::empty(), factor, ops, k - 1),
            factor,
            ops[k - 1],
        );
    }
}

/// Heap order holds after any number of extractions, which each take one node.
pub proof fn lemma_remaining(s: Seq<HeapNode>, k: nat)
    requires
        is_min_heap(s),
        k <= s.len(),
    ensures
        is_min_heap(remaining(s, k)),
        remaining(s, k).len() == s.len() - k,
    decreases k,
{
    if k > 0 {
        lemma_remaining(s, (k - 1) as nat);
        lemma_without_top(remaining(s, (k - 1) as nat));
    }
}

/// Extraction order: each extraction returns a node that is not more urgent
/// than the one returned just before it.
pub proof fn lemma_extraction_step(s: Seq<HeapNode>, k: nat)
    requires
        is_min_heap(s),
        k + 1 < s.len(),
    ensures
        extracted(s, k).effective_priority <= extracted(s, k + 1).effective_priority,
{
    let before = remaining(s, k);
    lemma_remaining(s, k);
    lemma_without_top(before);
    let after = without_top(before);
    assert(after == remaining(s, k + 1));
    let next = after[0];
    assert(after.contains(next));
    to_multiset_contains(after, next);
    assert(before.to_multiset().count(next) > 0);
    to_multiset_contains(before, next);
    let j = choose|j: int| 0 <= j < before.len() && before[j] == next;
    lemma_root_is_least(before, j);
}

/// Extraction order over any two extractions: the earlier one returns a node
/// that is at least as urgent as the later one's.
pub proof fn lemma_extraction_order(s: Seq<HeapNode>, earlier: nat, later: nat)
    requires
        is_min_heap(s),
        earlier <= later < s.len(),
    ensures
        extracted(s, earlier).effective_priority <= extracted(s, later).effective_priority,
    decreases later - earlier,
{
    if earlier < later {
        lemma_extraction_order(s, earlier, (later - 1) as nat);
        lemma_extraction_step(s, (later - 1) as nat);
    }
}

} // verus!
