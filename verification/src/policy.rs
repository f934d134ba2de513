//! The retry bound and the wait between tries.
use vstd::arithmetic::power2::{lemma_pow2_pos, lemma_pow2_strictly_increases, lemma_pow2_unfold, pow2};
use vstd::prelude::*;

verus! {

/// A retry policy as a mathematical value; delays in milliseconds.
pub struct PolicyView {
    pub max_attempts: nat,
    pub base_delay_ms: nat,
    pub max_delay_ms: nat,
}

impl PolicyView {
    /// At least one attempt, and a first wait within the longest one.
    pub open spec fn wf(self) -> bool {
        self.max_attempts >= 1 && self.base_delay_ms <= self.max_delay_ms
    }

    /// The longest wait after `failures` failed attempts in a row: the base
    /// delay, doubled with each failure after the first, capped.
    pub open spec fn ceiling(self, failures: nat) -> nat {
        let doublings = if failures >= 1 {
            (failures - 1) as nat
        } else {
            0
        };
        let grown = self.base_delay_ms * pow2(doublings);
        if grown < self.max_delay_ms {
            grown
        } else {
            self.max_delay_ms
        }
    }

    /// The wait after `failures` failed attempts in a row: between half the
    /// ceiling and the ceiling, placed by `entropy`.
    pub open spec fn backoff(self, failures: nat, entropy: u64) -> nat {
        let ceiling = self.ceiling(failures);
        let half = ceiling / 2;
        ((ceiling - half) + entropy as nat % (half + 1)) as nat
    }
}

/// The wait lies between half the ceiling, rounded up, and the ceiling.
pub proof fn lemma_backoff_bounds(policy: PolicyView, failures: nat, entropy: u64)
    ensures
        policy.ceiling(failures) - policy.ceiling(failures) / 2 <= policy.backoff(failures, entropy)
            <= policy.ceiling(failures),
        policy.ceiling(failures) <= policy.max_delay_ms,
{
}

/// The ceiling never shrinks as failures add up.
pub proof fn lemma_ceiling_grows(policy: PolicyView, earlier: nat, later: nat)
    requires
        1 <= earlier <= later,
    ensures
        policy.ceiling(earlier) <= policy.ceiling(later),
{
    let a = pow2((earlier - 1) as nat);
    let b = pow2((later - 1) as nat);
    if earlier < later {
        lemma_pow2_strictly_increases((earlier - 1) as nat, (later - 1) as nat);
    }
    assert(policy.base_delay_ms * a <= policy.base_delay_ms * b) by (nonlinear_arith)
        requires
            a <= b,
    ;
}

/// How often a job is tried and how long to wait between tries.
#[derive(Clone, Copy, Debug, PartialEq, Eq)]
pub struct RetryPolicy {
    max_attempts: u32,
    base_delay_ms: u64,
    max_delay_ms: u64,
}

impl View for RetryPolicy {
    type V = PolicyView;

    closed spec fn view(&self) -> PolicyView {
        PolicyView {
            max_attempts: self.max_attempts as nat,
            base_delay_ms: self.base_delay_ms as nat,
            max_delay_ms: self.max_delay_ms as nat,
        }
    }
}

impl RetryPolicy {
    #[verifier::type_invariant]
    closed spec fn inv(self) -> bool {
        self@.wf()
    }

    /// A policy of `max_attempts` tries whose waits start at `base_delay_ms`
    /// and never pass `max_delay_ms`. `None` for zero tries or a base delay
    /// above the longest one.
    pub fn new(max_attempts: u32, base_delay_ms: u64, max_delay_ms: u64) -> (out: Option<
        RetryPolicy,
    >)
        ensures
            out is Some <==> max_attempts >= 1 && base_delay_ms <= max_delay_ms,
            out matches Some(policy) ==> policy@ == (PolicyView {
                max_attempts: max_attempts as nat,
                base_delay_ms: base_delay_ms as nat,
                max_delay_ms: max_delay_ms as nat,
            }),
    {
        if max_attempts >= 1 && base_delay_ms <= max_delay_ms {
            Some(RetryPolicy { max_attempts, base_delay_ms, max_delay_ms })
        } else {
            None
        }
    }

    /// Three tries, waits from 200 ms up to 5 s.
    pub fn standard() -> (policy: RetryPolicy)
        ensures
            policy@ == (PolicyView { max_attempts: 3, base_delay_ms: 200, max_delay_ms: 5000 }),
    {
        RetryPolicy { max_attempts: 3, base_delay_ms: 200, max_delay_ms: 5000 }
    }

    pub fn max_attempts(&self) -> (n: u32)
        ensures
            n == self@.max_attempts,
            self@.wf(),
    {
        proof {
            use_type_invariant(self);
        }
        self.max_attempts
    }

    pub fn base_delay_ms(&self) -> (ms: u64)
        ensures
            ms == self@.base_delay_ms,
    {
        self.base_delay_ms
    }

    pub fn max_delay_ms(&self) -> (ms: u64)
        ensures
            ms == self@.max_delay_ms,
    {
        self.max_delay_ms
    }

    /// The longest wait after `failures` failed attempts in a row. Before
    /// the first failure it is what it is after the first.
    pub fn ceiling(&self, failures: u32) -> (ms: u64)
        ensures
            ms == self@.ceiling(failures as nat),
    {
        proof {
            use_type_invariant(self);
            lemma_pow2_unfold(1);
            assert(pow2(0) == 1) by {
                vstd::arithmetic::power2::lemma2_to64();
            }
            assert(self.base_delay_ms * 1 == self.base_delay_ms);
        }
        let cap = self.max_delay_ms;
        let mut reached: u64 = self.base_delay_ms;
        let mut k: u32 = 1;
        while k < failures && 0 < reached && reached < cap
            invariant
                1 <= k,
                failures >= 1 ==> k <= failures,
                failures == 0 ==> k == 1,
                cap == self.max_delay_ms,
                reached == self@.ceiling(k as nat),
                reached < cap ==> reached == self.base_delay_ms * pow2((k - 1) as nat),
            decreases failures - k,
        {
            proof {
                lemma_pow2_unfold(k as nat);
                assert(self.base_delay_ms * pow2(k as nat) == 2 * (self.base_delay_ms * pow2(
                    (k - 1) as nat,
                ))) by (nonlinear_arith)
                    requires
                        pow2(k as nat) == 2 * pow2((k - 1) as nat),
                ;
            }
            if reached > cap / 2 {
                reached = cap;
            } else {
                reached = 2 * reached;
            }
            k = k + 1;
        }
        proof {
            if k < failures {
                if reached == 0 {
                    lemma_pow2_pos((k - 1) as nat);
                    assert(self.base_delay_ms == 0) by (nonlinear_arith)
                        requires
                            self.base_delay_ms * pow2((k - 1) as nat) == 0 || self.max_delay_ms
                                == 0,
                            self.base_delay_ms <= self.max_delay_ms,
                            pow2((k - 1) as nat) > 0,
                    ;
                    assert(self.base_delay_ms * pow2((failures - 1) as nat) == 0) by (nonlinear_arith)
                        requires
                            self.base_delay_ms == 0,
                    ;
                } else {
                    lemma_ceiling_grows(self@, k as nat, failures as nat);
                }
            }
        }
        reached
    }

    /// The wait after `failures` failed attempts in a row. `entropy` is any
    /// number, best a random one: it spreads the waits of jobs that failed
    /// together.
    pub fn backoff(&self, failures: u32, entropy: u64) -> (ms: u64)
        ensures
            ms == self@.backoff(failures as nat, entropy),
    {
        let ceiling = self.ceiling(failures);
        let half = ceiling / 2;
        (ceiling - half) + entropy % (half + 1)
    }
}

} // verus!
