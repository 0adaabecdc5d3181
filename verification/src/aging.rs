//! Priority aging: how far a job's priority has decayed at a given logical
//! time.
//!
//! The aging factor is a rational in `[0, 1]`. The effective priority of a job
//! is its priority less the floor of `factor * (now - enqueue_time)`, computed
//! over the integers and kept inside the range of the stored field: never
//! below zero, never above `u32::MAX`.

use vstd::prelude::*;
use vstd::arithmetic::div_mod::{
    lemma_div_is_ordered,
    lemma_fundamental_div_mod,
    lemma_fundamental_div_mod_converse,
    lemma_mod_bound,
};

verus! {

/// The coefficient that scales how fast priority decays with logical age,
/// held as `numerator / denominator`.
#[derive(Debug, Clone, Copy, PartialEq, Eq)]
pub struct AgingFactor {
    numerator: u32,
    denominator: u32,
}

impl AgingFactor {
    pub closed spec fn num(self) -> int {
        self.numerator as int
    }

    pub closed spec fn den(self) -> int {
        self.denominator as int
    }

    /// A factor is a fraction between zero and one.
    #[verifier::type_invariant]
    pub open spec fn valid(self) -> bool {
        0 <= self.num() <= self.den() && 0 < self.den() && self.den() <= u32::MAX
    }

    /// `floor(factor * (now - enqueue_time))`, over the integers. The age is
    /// signed: a job stamped after `now` has a negative decay.
    pub open spec fn decay(self, enqueue_time: u64, now: u64) -> int {
        (self.num() * (now - enqueue_time)) / self.den()
    }

    /// The effective priority at `now` of a job with the given priority and
    /// enqueue time.
    pub open spec fn effective_at(self, priority: u32, enqueue_time: u64, now: u64) -> int {
        let aged = priority - self.decay(enqueue_time, now);
        if aged < 0 {
            0
        } else if aged > u32::MAX {
            u32::MAX as int
        } else {
            aged
        }
    }

    /// The factor `numerator / denominator`, where that is a fraction in
    /// `[0, 1]`.
    pub fn new(numerator: u32, denominator: u32) -> (factor: Option<Self>)
        ensures
            factor.is_some() <==> (0 < denominator && numerator <= denominator),
            factor matches Some(f) ==> f.num() == numerator && f.den() == denominator && f.valid(),
    {
        if denominator == 0 || numerator > denominator {
            None
        } else {
            Some(AgingFactor { numerator, denominator })
        }
    }

    /// The factor one half.
    pub fn half() -> (factor: Self)
        ensures
            factor.num() == 1,
            factor.den() == 2,
            factor.valid(),
    {
        AgingFactor { numerator: 1, denominator: 2 }
    }

    /// The factor zero: priorities never age.
    pub fn none() -> (factor: Self)
        ensures
            factor.num() == 0,
            factor.den() == 1,
            factor.valid(),
    {
        AgingFactor { numerator: 0, denominator: 1 }
    }

    pub fn numerator(&self) -> (n: u32)
        ensures
            n == self.num(),
    {
        self.numerator
    }

    pub fn denominator(&self) -> (d: u32)
        ensures
            d == self.den(),
            d > 0,
    {
        proof {
            use_type_invariant(self);
        }
        self.denominator
    }

    /// Computes `effective_at`.
    pub fn effective_priority(&self, priority: u32, enqueue_time: u64, now: u64) -> (effective: u32)
        ensures
            effective == self.effective_at(priority, enqueue_time, now),
    {
        proof {
            use_type_invariant(self);
        }
        let num: u128 = self.numerator as u128;
        let den: u128 = self.denominator as u128;
        if now >= enqueue_time {
            let age: u128 = (now - enqueue_time) as u128;
            assert(num * age <= 0xffff_ffff * 0xffff_ffff_ffff_ffff) by (nonlinear_arith)
                requires
                    0 <= num <= 0xffff_ffff,
                    0 <= age <= 0xffff_ffff_ffff_ffff,
            ;
            let decay: u128 = (num * age) / den;
            if decay >= priority as u128 {
                0
            } else {
                priority - (decay as u32)
            }
        } else {
            let lag: u128 = (enqueue_time - now) as u128;
            assert(num * lag <= 0xffff_ffff * 0xffff_ffff_ffff_ffff) by (nonlinear_arith)
                requires
                    0 <= num <= 0xffff_ffff,
                    0 <= lag <= 0xffff_ffff_ffff_ffff,
            ;
            let scaled: u128 = num * lag;
            let boost: u128 = (scaled + (den - 1)) / den;
            proof {
                lemma_floor_of_negative(scaled as int, den as int);
                assert(self.num() * (now - enqueue_time) == -(scaled as int)) by (nonlinear_arith)
                    requires
                        scaled == self.num() * lag,
                        lag == enqueue_time - now,
                ;
            }
            let aged: u128 = priority as u128 + boost;
            if aged > u32::MAX as u128 {
                u32::MAX
            } else {
                aged as u32
            }
        }
    }

    /// Aging monotonicity: with priority and enqueue time fixed, a later `now`
    /// never gives a larger effective priority, and the result never leaves the
    /// range `[0, u32::MAX]`.
    pub proof fn lemma_aging_monotonic(
        self,
        priority: u32,
        enqueue_time: u64,
        earlier: u64,
        later: u64,
    )
        requires
            self.valid(),
            earlier <= later,
        ensures
            self.effective_at(priority, enqueue_time, later) <= self.effective_at(
                priority,
                enqueue_time,
                earlier,
            ),
            0 <= self.effective_at(priority, enqueue_time, later) <= u32::MAX,
    {
        let n: int = self.num();
        let a: int = earlier - enqueue_time;
        let b: int = later - enqueue_time;
        assert(n * a <= n * b) by (nonlinear_arith)
            requires
                0 <= n,
                a <= b,
        ;
        lemma_div_is_ordered(n * a, n * b, self.den());
    }

    /// Once the decay has reached the priority the effective priority is zero,
    /// and a job of age zero has its own priority.
    pub proof fn lemma_aging_ends(self, priority: u32, enqueue_time: u64, now: u64)
        requires
            self.valid(),
        ensures
            self.decay(enqueue_time, now) >= priority ==> self.effective_at(
                priority,
                enqueue_time,
                now,
            ) == 0,
            now == enqueue_time ==> self.effective_at(priority, enqueue_time, now) == priority,
            now >= enqueue_time ==> self.effective_at(priority, enqueue_time, now) <= priority,
    {
        let n: int = self.num();
        let a: int = now - enqueue_time;
        if a >= 0 {
            assert(0 <= n * a) by (nonlinear_arith)
                requires
                    0 <= n,
                    0 <= a,
            ;
            lemma_div_is_ordered(0, n * a, self.den());
        }
        if a == 0 {
            assert(n * a == 0) by (nonlinear_arith)
                requires
                    a == 0,
            ;
        }
    }
}

/// For a positive divisor, the floor of `-x / d` is the negated ceiling of
/// `x / d`.
proof fn lemma_floor_of_negative(x: int, d: int)
    requires
        0 <= x,
        0 < d,
    ensures
        (-x) / d == -((x + (d - 1)) / d),
{
    let q: int = (x + (d - 1)) / d;
    let m: int = (x + (d - 1)) % d;
    lemma_fundamental_div_mod(x + (d - 1), d);
    lemma_mod_bound(x + (d - 1), d);
    let r: int = (d - 1) - m;
    assert(-x == (-q) * d + r) by (nonlinear_arith)
        requires
            x + (d - 1) == d * q + m,
            r == (d - 1) - m,
    ;
    lemma_fundamental_div_mod_converse(-x, d, -q, r);
}

} // verus!
