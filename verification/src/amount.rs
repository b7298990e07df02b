//! A count that may be unbounded: the number of connection attempts or
//! message retries that a client may make.

use std::cmp::Ordering;
use vstd::prelude::*;
use vstd::std_specs::cmp::PartialOrdSpec;

verus! {

/// Either a finite number or no limit at all.
#[derive(Debug, Copy, Clone)]
pub enum Amount {
    Val(u64),
    Infinite,
}

/// `a == n`: only a finite amount can equal a number.
pub open spec fn amount_eq(a: Amount, n: u64) -> bool {
    match a {
        Amount::Val(v) => v == n,
        Amount::Infinite => false,
    }
}

/// `a <= n`: an infinite amount is greater than every number.
pub open spec fn amount_le(a: Amount, n: u64) -> bool {
    match a {
        Amount::Val(v) => v <= n,
        Amount::Infinite => false,
    }
}

/// What one decrement makes of an amount: a positive finite amount goes
/// down by one; zero and infinity stay as they are.
pub open spec fn decremented(a: Amount) -> Amount {
    match a {
        Amount::Val(v) => if v > 0 { Amount::Val((v - 1) as u64) } else { a },
        Amount::Infinite => a,
    }
}

/// The amount after `k` decrements.
pub open spec fn decremented_n(a: Amount, k: nat) -> Amount
    decreases k,
{
    if k == 0 { a } else { decremented(decremented_n(a, (k - 1) as nat)) }
}

impl PartialEq<u64> for Amount {
    fn eq(&self, other: &u64) -> (r: bool) {
        match self {
            Amount::Val(v) => *v == *other,
            Amount::Infinite => false,
        }
    }
}

impl vstd::std_specs::cmp::PartialEqSpecImpl<u64> for Amount {
    open spec fn obeys_eq_spec() -> bool {
        true
    }

    open spec fn eq_spec(&self, other: &u64) -> bool {
        amount_eq(*self, *other)
    }
}

impl PartialOrd<u64> for Amount {
    fn partial_cmp(&self, other: &u64) -> (r: Option<Ordering>) {
        match self {
            Amount::Val(v) => {
                if *v < *other {
                    Some(Ordering::Less)
                } else if *v == *other {
                    Some(Ordering::Equal)
                } else {
                    Some(Ordering::Greater)
                }
            },
            Amount::Infinite => Some(Ordering::Greater),
        }
    }
}

impl vstd::std_specs::cmp::PartialOrdSpecImpl<u64> for Amount {
    open spec fn obeys_partial_cmp_spec() -> bool {
        true
    }

    open spec fn partial_cmp_spec(&self, other: &u64) -> Option<Ordering> {
        match *self {
            Amount::Val(v) => if v < *other {
                Some(Ordering::Less)
            } else if v == *other {
                Some(Ordering::Equal)
            } else {
                Some(Ordering::Greater)
            },
            Amount::Infinite => Some(Ordering::Greater),
        }
    }
}

impl Amount {
    /// Whether this is the finite amount zero.
    pub fn is_zero(&self) -> (r: bool)
        ensures
            r == (*self == Amount::Val(0)),
    {
        match self {
            Amount::Val(v) => *v == 0,
            Amount::Infinite => false,
        }
    }

    /// One less, where there is anything to take away.
    pub fn decrement(self) -> (r: Self)
        ensures
            r == decremented(self),
    {
        match self {
            Amount::Val(v) => {
                if v > 0 {
                    Amount::Val(v - 1)
                } else {
                    self
                }
            },
            Amount::Infinite => self,
        }
    }

    /// `self <= n`, the comparison that bounds the connection attempts.
    pub fn at_most(&self, n: u64) -> (r: bool)
        ensures
            r == amount_le(*self, n),
    {
        *self <= n
    }
}

/// Every ordering question about an amount and a number agrees with
/// `amount_le` and `amount_eq`.
pub proof fn lemma_order_agrees(a: Amount, n: u64)
    ensures
        a.partial_cmp_spec(&n) matches Some(Ordering::Less | Ordering::Equal) <==> amount_le(a, n),
        a.partial_cmp_spec(&n) == Some(Ordering::Equal) <==> amount_eq(a, n),
        a.partial_cmp_spec(&n) is Some,
{
}

/// Decrementing a finite amount `v` for `v` times gives zero: a budget of
/// retries is used up after as many steps as it holds.
pub proof fn lemma_finite_budget_runs_out(v: u64)
    ensures
        decremented_n(Amount::Val(v), v as nat) == Amount::Val(0),
        forall|k: nat| k < v ==> #[trigger] decremented_n(Amount::Val(v), k) == Amount::Val((v - k) as u64),
{
    assert forall|k: nat| k <= v implies #[trigger] decremented_n(Amount::Val(v), k) == Amount::Val((v - k) as u64) by {
        lemma_decremented_n_finite(v, k);
    }
}

proof fn lemma_decremented_n_finite(v: u64, k: nat)
    requires
        k <= v,
    ensures
        decremented_n(Amount::Val(v), k) == Amount::Val((v - k) as u64),
    decreases k,
{
    if k > 0 {
        lemma_decremented_n_finite(v, (k - 1) as nat);
    }
}

/// An infinite budget is never used up.
pub proof fn lemma_infinite_budget_never_runs_out(k: nat)
    ensures
        decremented_n(Amount::Infinite, k) == Amount::Infinite,
    decreases k,
{
    if k > 0 {
        lemma_infinite_budget_never_runs_out((k - 1) as nat);
    }
}

} // verus!
