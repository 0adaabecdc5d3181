//! The load balancer's list of nodes: the nodes that answered the last round
//! of probes, each with its normalized weight, heaviest first.

use vstd::prelude::*;
use crate::weight::{normalized, weight_valid, Weight, WeightView};

verus! {

/// A node as the load balancer sees it, as mathematical values.
pub struct NodeView {
    pub address: String,
    pub weight: WeightView,
}

/// A node as the load balancer sees it: where to reach it, and its share of
/// the traffic.
#[derive(Debug)]
pub struct Node {
    address: String,
    weight: Weight,
}

impl View for Node {
    type V = NodeView;

    closed spec fn view(&self) -> NodeView {
        NodeView { address: self.address, weight: self.weight@ }
    }
}

impl Node {
    pub fn new(address: String, weight: Weight) -> (node: Self)
        ensures
            node@ == (NodeView { address, weight: weight@ }),
    {
        Node { address, weight }
    }

    pub fn address(&self) -> (address: &String)
        ensures
            *address == self@.address,
    {
        &self.address
    }

    pub fn weight(&self) -> (weight: Weight)
        ensures
            weight@ == self@.weight,
            weight_valid(weight@),
    {
        let _: i128 = self.weight.numerator();
        self.weight
    }
}

/// The probe of node `i` succeeded.
pub open spec fn survives(probes: Seq<Option<i64>>, i: int) -> bool {
    0 <= i < probes.len() && probes[i].is_some()
}

/// The sum of the raw weights that the first `k` nodes reported.
pub open spec fn raw_total(probes: Seq<Option<i64>>, k: int) -> int
    decreases k,
{
    if k <= 0 {
        0
    } else {
        raw_total(probes, k - 1) + if survives(probes, k - 1) {
            probes[k - 1].unwrap() as int
        } else {
            0
        }
    }
}

/// How many of the first `k` probes succeeded.
pub open spec fn survivor_count(probes: Seq<Option<i64>>, k: int) -> nat
    decreases k,
{
    if k <= 0 {
        0
    } else {
        survivor_count(probes, k - 1) + if survives(probes, k - 1) {
            1nat
        } else {
            0nat
        }
    }
}

/// Where a node goes in a list that is heaviest first: before the first node
/// that is strictly lighter, so behind every node of its own weight.
pub open spec fn slot(s: Seq<NodeView>, x: NodeView) -> int
    decreases s.len(),
{
    if s.len() == 0 {
        0
    } else if s[0].weight.num < x.weight.num {
        0
    } else {
        1 + slot(s.drop_first(), x)
    }
}

/// The list with `x` put in its place.
pub open spec fn place(s: Seq<NodeView>, x: NodeView) -> Seq<NodeView> {
    s.insert(slot(s, x), x)
}

/// Node `i` with the weight its probe gives it.
pub open spec fn weighed(
    addresses: Seq<String>,
    probes: Seq<Option<i64>>,
    total: int,
    i: int,
) -> NodeView {
    NodeView { address: addresses[i], weight: normalized(probes[i].unwrap() as int, total) }
}

/// The list made of the first `k` nodes: those whose probe succeeded, each
/// weighed against `total` and put in its place in turn.
pub open spec fn installed_prefix(
    addresses: Seq<String>,
    probes: Seq<Option<i64>>,
    total: int,
    k: int,
) -> Seq<NodeView>
    decreases k,
{
    if k <= 0 {
        Seq::empty()
    } else {
        let before = installed_prefix(addresses, probes, total, k - 1);
        if survives(probes, k - 1) {
            place(before, weighed(addresses, probes, total, k - 1))
        } else {
            before
        }
    }
}

/// The list that a round of probes gives: the nodes whose probe succeeded,
/// each with its raw weight divided by the sum of them all, heaviest first,
/// and in the order of `addresses` among nodes of one weight. A node without
/// a probe counts as one whose probe failed.
pub open spec fn installed(addresses: Seq<String>, probes: Seq<Option<i64>>) -> Seq<NodeView> {
    installed_prefix(
        addresses,
        probes,
        raw_total(probes, addresses.len() as int),
        addresses.len() as int,
    )
}

/// No node is lighter than one behind it. The nodes of a list share their
/// denominator, so the numerators tell the order.
pub open spec fn sorted_descending(s: Seq<NodeView>) -> bool {
    forall|i: int, j: int| 0 <= i < j < s.len() ==> s[i].weight.num >= s[j].weight.num
}

/// Every weight of the list is over the denominator `den`.
pub open spec fn shares_denominator(s: Seq<NodeView>, den: int) -> bool {
    forall|i: int| 0 <= i < s.len() ==> (#[trigger] s[i]).weight.den == den
}

/// The sum of the numerators.
pub open spec fn numerator_sum(s: Seq<NodeView>) -> int
    decreases s.len(),
{
    if s.len() == 0 {
        0
    } else {
        numerator_sum(s.drop_last()) + s.last().weight.num
    }
}

/// The weights add up to one: they share a denominator, which is the sum of
/// the numerators.
pub open spec fn sums_to_one(s: Seq<NodeView>) -> bool {
    s.len() > 0 && shares_denominator(s, s[0].weight.den) && numerator_sum(s) == s[0].weight.den
}

/// Every weight is zero.
pub open spec fn all_zero(s: Seq<NodeView>) -> bool {
    forall|i: int| 0 <= i < s.len() ==> (#[trigger] s[i]).weight == (WeightView { num: 0, den: 1 })
}

/// What holds of every list the load balancer installs: heaviest first, and
/// the weights add up to one, unless the list is empty or no share could be
/// told because the raw weights added up to zero.
pub open spec fn list_valid(s: Seq<NodeView>) -> bool {
    &&& sorted_descending(s)
    &&& s.len() == 0 || sums_to_one(s) || all_zero(s)
}

/// `a` is at least `b`, as fractions.
pub open spec fn weight_ge(a: WeightView, b: WeightView) -> bool {
    a.num * b.den >= b.num * a.den
}

/// Over one denominator the numerators order the weights.
pub proof fn lemma_shared_denominator_order(a: WeightView, b: WeightView)
    requires
        a.den == b.den,
        a.den > 0,
    ensures
        weight_ge(a, b) <==> a.num >= b.num,
{
    assert(a.num * a.den >= b.num * a.den <==> a.num >= b.num) by (nonlinear_arith)
        requires
            a.den > 0,
    ;
}

/// What `slot` finds: every node before it is at least as heavy as `x`, and
/// the node at it, if there is one, is strictly lighter.
pub proof fn lemma_slot(s: Seq<NodeView>, x: NodeView)
    ensures
        0 <= slot(s, x) <= s.len(),
        forall|k: int| 0 <= k < slot(s, x) ==> (#[trigger] s[k]).weight.num >= x.weight.num,
        slot(s, x) < s.len() ==> s[slot(s, x)].weight.num < x.weight.num,
    decreases s.len(),
{
    if s.len() > 0 && s[0].weight.num >= x.weight.num {
        let rest = s.drop_first();
        lemma_slot(rest, x);
        assert forall|k: int| 0 <= k < slot(s, x) implies (#[trigger] s[k]).weight.num
            >= x.weight.num by {
            if k > 0 {
                assert(s[k] == rest[k - 1]);
            }
        }
    }
}

/// The index that a scan from the front stops at is the slot.
pub proof fn lemma_slot_is(s: Seq<NodeView>, x: NodeView, j: int)
    requires
        0 <= j <= s.len(),
        forall|k: int| 0 <= k < j ==> (#[trigger] s[k]).weight.num >= x.weight.num,
        j < s.len() ==> s[j].weight.num < x.weight.num,
    ensures
        slot(s, x) == j,
{
    lemma_slot(s, x);
    let p = slot(s, x);
    if p < j {
        assert(s[p].weight.num >= x.weight.num);
    } else if j < p {
        assert(s[j].weight.num >= x.weight.num);
    }
}

/// Putting a node in adds its numerator to the sum.
pub proof fn lemma_sum_insert(s: Seq<NodeView>, i: int, x: NodeView)
    requires
        0 <= i <= s.len(),
    ensures
        numerator_sum(s.insert(i, x)) == numerator_sum(s) + x.weight.num,
    decreases s.len() - i,
{
    let t = s.insert(i, x);
    if i == s.len() {
        assert(t.drop_last() =~= s);
    } else {
        assert(t.drop_last() =~= s.drop_last().insert(i, x));
        assert(t.last() == s.last());
        lemma_sum_insert(s.drop_last(), i, x);
    }
}

/// Putting a node in its place keeps the list heaviest first.
pub proof fn lemma_place_sorted(s: Seq<NodeView>, x: NodeView)
    requires
        sorted_descending(s),
    ensures
        sorted_descending(place(s, x)),
        place(s, x).len() == s.len() + 1,
{
    lemma_slot(s, x);
    let p = slot(s, x);
    let t = place(s, x);
    assert forall|i: int, j: int| 0 <= i < j < t.len() implies t[i].weight.num
        >= t[j].weight.num by {
        if j < p {
        } else if j == p {
            assert(s[i].weight.num >= x.weight.num);
        } else if i < p {
            assert(t[j] == s[j - 1]);
        } else if i == p {
            assert(t[j] == s[j - 1]);
            if p < j - 1 {
                assert(s[p].weight.num >= s[j - 1].weight.num);
            }
        } else {
            assert(t[i] == s[i - 1]);
            assert(t[j] == s[j - 1]);
        }
    }
}

/// The numerator of a normalized weight, summed as the raw weights are.
pub open spec fn signed(raw_sum: int, total: int) -> int {
    if total > 0 {
        raw_sum
    } else if total < 0 {
        -raw_sum
    } else {
        0
    }
}

/// What holds of the list made of the first `k` nodes.
pub proof fn lemma_installed_prefix(
    addresses: Seq<String>,
    probes: Seq<Option<i64>>,
    total: int,
    k: int,
)
    requires
        0 <= k <= addresses.len(),
    ensures
        sorted_descending(installed_prefix(addresses, probes, total, k)),
        installed_prefix(addresses, probes, total, k).len() == survivor_count(probes, k),
        shares_denominator(
            installed_prefix(addresses, probes, total, k),
            normalized(0, total).den,
        ),
        numerator_sum(installed_prefix(addresses, probes, total, k)) == signed(
            raw_total(probes, k),
            total,
        ),
        forall|j: int|
            0 <= j < installed_prefix(addresses, probes, total, k).len() ==> exists|i: int|
                0 <= i < k && survives(probes, i) && #[trigger] installed_prefix(
                    addresses,
                    probes,
                    total,
                    k,
                )[j] == #[trigger] weighed(addresses, probes, total, i),
        forall|i: int|
            0 <= i < k && survives(probes, i) ==> installed_prefix(
                addresses,
                probes,
                total,
                k,
            ).contains(#[trigger] weighed(addresses, probes, total, i)),
    decreases k,
{
    if k > 0 {
        lemma_installed_prefix(addresses, probes, total, k - 1);
        let before = installed_prefix(addresses, probes, total, k - 1);
        let after = installed_prefix(addresses, probes, total, k);
        if survives(probes, k - 1) {
            let x = weighed(addresses, probes, total, k - 1);
            let p = slot(before, x);
            lemma_slot(before, x);
            lemma_place_sorted(before, x);
            lemma_sum_insert(before, p, x);
            assert(after[p] == x);
            assert forall|j: int| 0 <= j < after.len() implies exists|i: int|
                0 <= i < k && survives(probes, i) && #[trigger] after[j] == #[trigger] weighed(
                    addresses,
                    probes,
                    total,
                    i,
                ) by {
                if j < p {
                    assert(after[j] == before[j]);
                    let i = choose|i: int|
                        0 <= i < k - 1 && survives(probes, i) && before[j] == weighed(
                            addresses,
                            probes,
                            total,
                            i,
                        );
                    assert(after[j] == weighed(addresses, probes, total, i));
                } else if j == p {
                    assert(after[j] == weighed(addresses, probes, total, k - 1));
                } else {
                    assert(after[j] == before[j - 1]);
                    let i = choose|i: int|
                        0 <= i < k - 1 && survives(probes, i) && before[j - 1] == weighed(
                            addresses,
                            probes,
                            total,
                            i,
                        );
                    assert(after[j] == weighed(addresses, probes, total, i));
                }
            }
            assert forall|i: int| 0 <= i < k && survives(probes, i) implies after.contains(
                #[trigger] weighed(addresses, probes, total, i),
            ) by {
                if i == k - 1 {
                    assert(after[p] == x);
                } else {
                    let y = weighed(addresses, probes, total, i);
                    assert(before.contains(y));
                    let j = choose|j: int| 0 <= j < before.len() && before[j] == y;
                    if j < p {
                        assert(after[j] == y);
                    } else {
                        assert(after[j + 1] == y);
                    }
                }
            }
            assert forall|j: int| 0 <= j < after.len() implies (#[trigger] after[j]).weight.den
                == normalized(0, total).den by {
                if j < p {
                    assert(after[j] == before[j]);
                } else if j > p {
                    assert(after[j] == before[j - 1]);
                }
            }
        }
    }
}

/// Weight normalization and pruning: the list a round of probes gives is
/// heaviest first; it holds exactly the nodes whose probe succeeded, each
/// with its raw weight over the sum of them all; and unless that sum is zero
/// (or no probe succeeded) its weights add up to one.
pub proof fn lemma_installed(addresses: Seq<String>, probes: Seq<Option<i64>>)
    ensures
        list_valid(installed(addresses, probes)),
        sorted_descending(installed(addresses, probes)),
        installed(addresses, probes).len() == survivor_count(probes, addresses.len() as int),
        installed(addresses, probes).len() > 0 && raw_total(probes, addresses.len() as int) != 0
            ==> sums_to_one(installed(addresses, probes)),
        forall|j: int|
            0 <= j < installed(addresses, probes).len() ==> exists|i: int|
                0 <= i < addresses.len() && survives(probes, i) && #[trigger] installed(
                    addresses,
                    probes,
                )[j] == #[trigger] weighed(
                    addresses,
                    probes,
                    raw_total(probes, addresses.len() as int),
                    i,
                ),
        forall|i: int|
            0 <= i < addresses.len() && survives(probes, i) ==> installed(
                addresses,
                probes,
            ).contains(
                #[trigger] weighed(addresses, probes, raw_total(probes, addresses.len() as int), i),
            ),
{
    let total = raw_total(probes, addresses.len() as int);
    let list = installed(addresses, probes);
    lemma_installed_prefix(addresses, probes, total, addresses.len() as int);
    if list.len() > 0 {
        if total == 0 {
            assert forall|j: int| 0 <= j < list.len() implies (#[trigger] list[j]).weight == (
            WeightView { num: 0, den: 1 }) by {
                let i = choose|i: int|
                    0 <= i < addresses.len() && survives(probes, i) && list[j] == weighed(
                        addresses,
                        probes,
                        total,
                        i,
                    );
            }
        } else {
            assert(list[0].weight.den == normalized(0, total).den);
        }
    }
}

/// Where every raw weight has the sign of their sum, every weight of the
/// list lies between zero and one.
pub proof fn lemma_weights_in_unit_interval(addresses: Seq<String>, probes: Seq<Option<i64>>)
    requires
        raw_total(probes, addresses.len() as int) != 0,
        (forall|i: int| survives(probes, i) ==> (#[trigger] probes[i]).unwrap() >= 0) || (forall|
            i: int,
        | survives(probes, i) ==> (#[trigger] probes[i]).unwrap() <= 0),
    ensures
        forall|j: int|
            0 <= j < installed(addresses, probes).len() ==> 0 <= (#[trigger] installed(
                addresses,
                probes,
            )[j]).weight.num <= installed(addresses, probes)[j].weight.den,
{
    let n = addresses.len() as int;
    let total = raw_total(probes, n);
    let list = installed(addresses, probes);
    lemma_installed(addresses, probes);
    assert forall|j: int| 0 <= j < list.len() implies 0 <= (#[trigger] list[j]).weight.num
        <= list[j].weight.den by {
        let i = choose|i: int|
            0 <= i < n && survives(probes, i) && list[j] == weighed(addresses, probes, total, i);
        lemma_raw_within_total(probes, n, i);
    }
}

/// Where the raw weights share a sign, none exceeds their sum in size.
proof fn lemma_raw_within_total(probes: Seq<Option<i64>>, k: int, i: int)
    requires
        0 <= i < k,
        survives(probes, i),
        (forall|m: int| survives(probes, m) ==> (#[trigger] probes[m]).unwrap() >= 0) || (forall|
            m: int,
        | survives(probes, m) ==> (#[trigger] probes[m]).unwrap() <= 0),
    ensures
        (forall|m: int| survives(probes, m) ==> (#[trigger] probes[m]).unwrap() >= 0) ==> 0
            <= probes[i].unwrap() <= raw_total(probes, k),
        (forall|m: int| survives(probes, m) ==> (#[trigger] probes[m]).unwrap() <= 0)
            ==> raw_total(probes, k) <= probes[i].unwrap() <= 0,
    decreases k,
{
    lemma_total_sign(probes, k - 1);
    if i < k - 1 {
        lemma_raw_within_total(probes, k - 1, i);
    }
}

proof fn lemma_total_sign(probes: Seq<Option<i64>>, k: int)
    ensures
        (forall|m: int| survives(probes, m) ==> (#[trigger] probes[m]).unwrap() >= 0)
            ==> raw_total(probes, k) >= 0,
        (forall|m: int| survives(probes, m) ==> (#[trigger] probes[m]).unwrap() <= 0)
            ==> raw_total(probes, k) <= 0,
    decreases k,
{
    if k > 0 {
        lemma_total_sign(probes, k - 1);
    }
}

/// The views of a vector of nodes, in order.
pub open spec fn views(nodes: Seq<Node>) -> Seq<NodeView> {
    Seq::new(nodes.len(), |i: int| nodes[i]@)
}

/// The addresses of a list, in order.
pub open spec fn addresses_of(s: Seq<NodeView>) -> Seq<String> {
    Seq::new(s.len(), |i: int| s[i].address)
}

/// The node list of a load balancer. Its view is the nodes in order,
/// heaviest first.
#[derive(Debug)]
pub struct NodeList {
    nodes: Vec<Node>,
}

impl View for NodeList {
    type V = Seq<NodeView>;

    closed spec fn view(&self) -> Seq<NodeView> {
        views(self.nodes@)
    }
}

impl NodeList {
    #[verifier::type_invariant]
    closed spec fn well_formed(self) -> bool {
        list_valid(self@)
    }

    /// The empty list.
    pub fn empty() -> (list: Self)
        ensures
            list@ == Seq::<NodeView>::empty(),
    {
        let list = NodeList { nodes: Vec::new() };
        assert(list@ =~= Seq::<NodeView>::empty());
        list
    }

    /// The list that a round of probes gives: `probes[i]` is the raw weight
    /// that the node at `addresses[i]` reported, in hundredths, or `None`
    /// where its probe failed.
    pub fn install(addresses: &Vec<String>, probes: &Vec<Option<i64>>) -> (list: Self)
        ensures
            list@ == installed(addresses@, probes@),
            list_valid(list@),
    {
        let count: usize = addresses.len();
        let mut total: i128 = 0;
        let mut i: usize = 0;
        while i < count
            invariant
                i <= count,
                count == addresses.len(),
                total == raw_total(probes@, i as int),
                -(i * 0x8000_0000_0000_0000) <= total <= i * 0x8000_0000_0000_0000,
            decreases count - i,
        {
            if i < probes.len() {
                match probes[i] {
                    Some(raw) => {
                        total = total + raw as i128;
                    },
                    None => {},
                }
            }
            i = i + 1;
        }
        let mut nodes: Vec<Node> = Vec::new();
        let mut k: usize = 0;
        assert(views(nodes@) =~= installed_prefix(addresses@, probes@, total as int, 0));
        while k < count
            invariant
                k <= count,
                count == addresses.len(),
                total > i128::MIN,
                views(nodes@) == installed_prefix(addresses@, probes@, total as int, k as int),
            decreases count - k,
        {
            if k < probes.len() {
                match probes[k] {
                    Some(raw) => {
                        let weight: Weight = Weight::normalize(raw, total);
                        let node: Node = Node::new(addresses[k].clone(), weight);
                        let mut j: usize = 0;
                        while j < nodes.len() && nodes[j].weight().numerator()
                            >= weight.numerator()
                            invariant
                                j <= nodes.len(),
                                forall|m: int|
                                    0 <= m < j ==> (#[trigger] views(nodes@)[m]).weight.num
                                        >= weight@.num,
                            decreases nodes.len() - j,
                        {
                            j = j + 1;
                        }
                        proof {
                            lemma_slot_is(views(nodes@), node@, j as int);
                        }
                        let ghost before = views(nodes@);
                        nodes.insert(j, node);
                        assert(views(nodes@) =~= before.insert(j as int, node@));
                    },
                    None => {},
                }
            }
            k = k + 1;
        }
        proof {
            lemma_installed(addresses@, probes@);
        }
        NodeList { nodes }
    }

    /// How many nodes the list holds.
    pub fn len(&self) -> (n: usize)
        ensures
            n == self@.len(),
            list_valid(self@),
    {
        proof {
            use_type_invariant(self);
        }
        self.nodes.len()
    }

    /// The node at place `i`, the heaviest at place zero.
    pub fn get(&self, i: usize) -> (node: Option<&Node>)
        ensures
            node.is_some() <==> i < self@.len(),
            node matches Some(n) ==> n@ == self@[i as int],
    {
        if i < self.nodes.len() {
            Some(&self.nodes[i])
        } else {
            None
        }
    }

    /// The addresses of the nodes, in the order of the list.
    pub fn addresses(&self) -> (addresses: Vec<String>)
        ensures
            addresses@ == addresses_of(self@),
    {
        let mut addresses: Vec<String> = Vec::new();
        let mut i: usize = 0;
        while i < self.nodes.len()
            invariant
                i <= self.nodes.len(),
                addresses@ == addresses_of(self@).subrange(0, i as int),
            decreases self.nodes.len() - i,
        {
            addresses.push(self.nodes[i].address().clone());
            i = i + 1;
            assert(addresses@ =~= addresses_of(self@).subrange(0, i as int));
        }
        assert(addresses@ =~= addresses_of(self@));
        addresses
    }
}

} // verus!
