//! Node health and the weights derived from it.
//!
//! Fractions are held in millionths. A raw weight is a whole number of
//! hundredths, as the scoring formula rounds to two places. A normalized
//! weight is the exact fraction `raw / total`, where `total` is the sum of the
//! raw weights of the nodes that answered.

use vstd::prelude::*;
use vstd::arithmetic::div_mod::{lemma_div_is_ordered, lemma_div_multiples_vanish};
use crate::clock::LogicalClock;

verus! {

/// One, in the unit of the health fractions.
pub const MILLION: u32 = 1_000_000;

/// The divisor of the scoring formula: the square of `MILLION` for the two
/// fractions, times `100 * 100 * 100 / 100`.
pub const SCORE_DIVISOR: i128 = 10_000_000_000_000_000;

/// The fraction `part / whole` in millionths, rounded down; `None` where
/// `whole` is zero or `part` is more than the whole.
pub fn millionths(part: u64, whole: u64) -> (fraction: Option<u32>)
    ensures
        fraction.is_some() <==> 0 < whole && part <= whole,
        fraction matches Some(m) ==> m == (part * MILLION) / (whole as int) && m <= MILLION,
{
    if whole == 0 || part > whole {
        return None;
    }
    assert(0 <= part * MILLION <= whole * MILLION <= 0xffff_ffff_ffff_ffff * 1_000_000)
        by (nonlinear_arith)
        requires
            0 <= part <= whole <= 0xffff_ffff_ffff_ffff,
            MILLION == 1_000_000,
    ;
    let scaled: u128 = (part as u128) * (MILLION as u128);
    proof {
        lemma_div_is_ordered(scaled as int, whole * MILLION, whole as int);
        lemma_div_multiples_vanish(MILLION as int, whole as int);
        assert(whole * MILLION == MILLION * whole) by (nonlinear_arith);
    }
    Some((scaled / (whole as u128)) as u32)
}

/// What a node reports of itself when probed.
#[derive(Debug, Clone, Copy, PartialEq, Eq)]
pub struct HealthReport {
    cpu_utilization: u32,
    memory_usage: u32,
    queue_depth: u64,
    response_time: u64,
}

impl HealthReport {
    /// The CPU in use, in millionths.
    pub closed spec fn cpu(self) -> int {
        self.cpu_utilization as int
    }

    /// The memory in use, in millionths.
    pub closed spec fn memory(self) -> int {
        self.memory_usage as int
    }

    pub closed spec fn depth(self) -> int {
        self.queue_depth as int
    }

    pub closed spec fn response(self) -> int {
        self.response_time as int
    }

    /// Both fractions are at most one.
    #[verifier::type_invariant]
    pub open spec fn valid(self) -> bool {
        0 <= self.cpu() <= MILLION && 0 <= self.memory() <= MILLION && 0 <= self.depth()
            <= u64::MAX
    }

    /// A report of the given readings, the fractions in millionths. `None`
    /// where a fraction is above one.
    pub fn new(cpu_utilization: u32, memory_usage: u32, queue_depth: u64, response_time: u64) -> (report:
        Option<Self>)
        ensures
            report.is_some() <==> cpu_utilization <= MILLION && memory_usage <= MILLION,
            report matches Some(r) ==> {
                &&& r.cpu() == cpu_utilization
                &&& r.memory() == memory_usage
                &&& r.depth() == queue_depth
                &&& r.response() == response_time
                &&& r.valid()
            },
    {
        if cpu_utilization <= MILLION && memory_usage <= MILLION {
            Some(HealthReport { cpu_utilization, memory_usage, queue_depth, response_time })
        } else {
            None
        }
    }

    /// The report of a node that measured its own CPU and memory: the value
    /// its clock shows stands for the queue depth and for the response time.
    pub fn measured(cpu_utilization: u32, memory_usage: u32, clock: &LogicalClock) -> (report:
        Option<Self>)
        ensures
            report.is_some() <==> cpu_utilization <= MILLION && memory_usage <= MILLION,
            report matches Some(r) ==> {
                &&& r.cpu() == cpu_utilization
                &&& r.memory() == memory_usage
                &&& r.depth() == clock@
                &&& r.response() == clock@
                &&& r.valid()
            },
    {
        let now: u64 = clock.now();
        HealthReport::new(cpu_utilization, memory_usage, now, now)
    }

    pub fn cpu_utilization(&self) -> (millionths: u32)
        ensures
            millionths == self.cpu(),
            millionths <= MILLION,
    {
        proof {
            use_type_invariant(self);
        }
        self.cpu_utilization
    }

    pub fn memory_usage(&self) -> (millionths: u32)
        ensures
            millionths == self.memory(),
            millionths <= MILLION,
    {
        proof {
            use_type_invariant(self);
        }
        self.memory_usage
    }

    pub fn queue_depth(&self) -> (depth: u64)
        ensures
            depth == self.depth(),
    {
        self.queue_depth
    }

    /// Carried for later use; the score does not read it.
    pub fn response_time(&self) -> (time: u64)
        ensures
            time == self.response(),
    {
        self.response_time
    }

    /// The raw weight of the node that sent this report, in hundredths.
    pub fn raw_weight(&self) -> (raw: i64)
        ensures
            raw == raw_score(self.cpu(), self.memory(), self.depth()),
    {
        proof {
            use_type_invariant(self);
        }
        let idle_cpu: i128 = (MILLION - self.cpu_utilization) as i128;
        let idle_memory: i128 = (MILLION - self.memory_usage) as i128;
        let slack: i128 = 1 - (self.queue_depth as i128);
        assert(0 <= idle_cpu * idle_memory <= 1_000_000_000_000) by (nonlinear_arith)
            requires
                0 <= idle_cpu <= 1_000_000,
                0 <= idle_memory <= 1_000_000,
        ;
        let idle: i128 = idle_cpu * idle_memory;
        assert(-0x1_0000_0000_0000_0000 * 1_000_000_000_000 <= idle * slack <= 1_000_000_000_000)
            by (nonlinear_arith)
            requires
                0 <= idle <= 1_000_000_000_000,
                -0x1_0000_0000_0000_0000 <= slack <= 1,
        ;
        let product: i128 = idle * slack;
        assert(product == (MILLION - self.cpu()) * (MILLION - self.memory()) * (1 - self.depth()));
        if product >= 0 {
            proof {
                lemma_rounded_bound(product as int);
            }
            ((2 * product + SCORE_DIVISOR) / (2 * SCORE_DIVISOR)) as i64
        } else {
            let size: i128 = -product;
            proof {
                lemma_rounded_bound(size as int);
            }
            -(((2 * size + SCORE_DIVISOR) / (2 * SCORE_DIVISOR)) as i64)
        }
    }
}

/// `p / d` rounded to the nearest integer, a tie away from zero.
pub open spec fn round_half_away(p: int, d: int) -> int {
    if p >= 0 {
        (2 * p + d) / (2 * d)
    } else {
        -((2 * (-p) + d) / (2 * d))
    }
}

/// The scoring formula, in hundredths:
/// `round(((1 - cpu) / 100) * ((1 - memory) / 100) * ((1 - depth) / 100) * 100)`,
/// the two fractions given in millionths.
pub open spec fn raw_score(cpu: int, memory: int, depth: int) -> int {
    round_half_away(
        (MILLION - cpu) * (MILLION - memory) * (1 - depth),
        SCORE_DIVISOR as int,
    )
}

proof fn lemma_rounded_bound(size: int)
    requires
        0 <= size <= 0x1_0000_0000_0000_0000 * 1_000_000_000_000,
    ensures
        0 <= (2 * size + SCORE_DIVISOR) / (2 * SCORE_DIVISOR) <= 0x8_0000_0000_0000,
{
    let d: int = 2 * SCORE_DIVISOR;
    lemma_div_is_ordered(0, 2 * size + SCORE_DIVISOR, d);
    lemma_div_is_ordered(2 * size + SCORE_DIVISOR, 0x8_0000_0000_0000 * d, d);
    lemma_div_multiples_vanish(0x8_0000_0000_0000, d);
}

/// A fraction `num / den` with a positive denominator.
pub struct WeightView {
    pub num: int,
    pub den: int,
}

/// The weight of a node: the share of the dispatched traffic it is to get.
#[derive(Debug, Clone, Copy, PartialEq, Eq)]
pub struct Weight {
    numerator: i128,
    denominator: i128,
}

impl View for Weight {
    type V = WeightView;

    closed spec fn view(&self) -> WeightView {
        WeightView { num: self.numerator as int, den: self.denominator as int }
    }
}

/// The largest magnitude of a numerator.
pub open spec fn numerator_limit() -> int {
    0x8000_0000_0000_0000
}

/// The fraction is well defined and within machine limits.
pub open spec fn weight_valid(w: WeightView) -> bool {
    0 < w.den <= i128::MAX && -numerator_limit() <= w.num <= numerator_limit()
}

/// The normalized weight `raw / total`, with the sign carried by the
/// numerator. Where the total is zero no share can be told, and the weight is
/// zero.
pub open spec fn normalized(raw: int, total: int) -> WeightView {
    if total > 0 {
        WeightView { num: raw, den: total }
    } else if total < 0 {
        WeightView { num: -raw, den: -total }
    } else {
        WeightView { num: 0, den: 1 }
    }
}

/// The number of requests a node of weight `w` is given in one distribution
/// over `count` nodes: `floor(count * w)`, and none for a negative weight.
pub open spec fn quota(count: nat, w: WeightView) -> nat {
    if w.num <= 0 {
        0
    } else {
        ((count * w.num) / w.den) as nat
    }
}

impl Weight {
    #[verifier::type_invariant]
    closed spec fn well_formed(self) -> bool {
        weight_valid(self@)
    }

    /// The weight `numerator / denominator`; `None` for a zero denominator.
    pub fn new(numerator: i64, denominator: u64) -> (weight: Option<Self>)
        ensures
            weight.is_some() <==> denominator > 0,
            weight matches Some(w) ==> w@ == (WeightView {
                num: numerator as int,
                den: denominator as int,
            }) && weight_valid(w@),
    {
        if denominator == 0 {
            None
        } else {
            Some(Weight { numerator: numerator as i128, denominator: denominator as i128 })
        }
    }

    /// The weight zero.
    pub fn zero() -> (weight: Self)
        ensures
            weight@ == (WeightView { num: 0, den: 1 }),
    {
        Weight { numerator: 0, denominator: 1 }
    }

    /// The weight `raw / total`.
    pub fn normalize(raw: i64, total: i128) -> (weight: Self)
        requires
            total > i128::MIN,
        ensures
            weight@ == normalized(raw as int, total as int),
            weight_valid(weight@),
    {
        if total > 0 {
            Weight { numerator: raw as i128, denominator: total }
        } else if total < 0 {
            Weight { numerator: -(raw as i128), denominator: -total }
        } else {
            Weight { numerator: 0, denominator: 1 }
        }
    }

    pub fn numerator(&self) -> (n: i128)
        ensures
            n == self@.num,
            weight_valid(self@),
    {
        proof {
            use_type_invariant(self);
        }
        self.numerator
    }

    pub fn denominator(&self) -> (d: i128)
        ensures
            d == self@.den,
            weight_valid(self@),
    {
        proof {
            use_type_invariant(self);
        }
        self.denominator
    }

    /// Computes `quota`.
    pub fn quota(&self, count: usize) -> (slots: u128)
        ensures
            slots == quota(count as nat, self@),
    {
        proof {
            use_type_invariant(self);
        }
        if self.numerator <= 0 {
            0
        } else {
            let n: i128 = count as i128;
            assert(0 <= n * self.numerator <= 0xffff_ffff_ffff_ffff * 0x8000_0000_0000_0000)
                by (nonlinear_arith)
                requires
                    0 <= n <= 0xffff_ffff_ffff_ffff,
                    0 < self.numerator <= 0x8000_0000_0000_0000,
            ;
            let scaled: i128 = n * self.numerator;
            proof {
                lemma_div_is_ordered(0, scaled as int, self.denominator as int);
            }
            (scaled / self.denominator) as u128
        }
    }
}

} // verus!
