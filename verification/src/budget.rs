//! How much a search for revocations may ask of registries.

use vstd::prelude::*;
use crate::error::{AcdpError, BudgetLimit};

verus! {

/// A limit on the requests and the bytes of one search for revocations. Both
/// trust classes draw on the same budget.
#[derive(Debug, PartialEq, Eq)]
pub struct DiscoveryBudget {
    max_requests: Option<usize>,
    max_bytes: Option<u64>,
    requests_used: usize,
    bytes_used: u64,
}

/// A [`DiscoveryBudget`] and what has been used of it. Requests are counted
/// only where they are limited.
pub struct DiscoveryBudgetView {
    pub max_requests: Option<usize>,
    pub max_bytes: Option<u64>,
    pub requests_used: usize,
    pub bytes_used: u64,
}

impl DiscoveryBudgetView {
    /// What stands in the way of a further request, if anything does. The
    /// bytes come first.
    pub open spec fn obstacle(self) -> Option<BudgetLimit> {
        if self.max_bytes is Some && self.bytes_used >= self.max_bytes.unwrap() {
            Some(BudgetLimit::Bytes { limit: self.max_bytes.unwrap() })
        } else if self.max_requests is Some && self.requests_used >= self.max_requests.unwrap() {
            Some(BudgetLimit::Requests { limit: self.max_requests.unwrap() as u64 })
        } else {
            None
        }
    }

    /// The budget with one more request reserved.
    pub open spec fn reserved(self) -> DiscoveryBudgetView {
        DiscoveryBudgetView {
            requests_used: if self.max_requests is Some {
                (self.requests_used + 1) as usize
            } else {
                self.requests_used
            },
            ..self
        }
    }

    /// The budget with bytes counted. The counter wraps round at its end.
    pub open spec fn charged(self, n: int) -> DiscoveryBudgetView {
        DiscoveryBudgetView {
            bytes_used: ((self.bytes_used + n) % 0x1_0000_0000_0000_0000) as u64,
            ..self
        }
    }

    /// Never are more requests reserved than the budget has.
    pub open spec fn within_limit(self) -> bool {
        self.max_requests matches Some(max) ==> self.requests_used <= max
    }
}

impl DiscoveryBudget {
    /// The budget and what has been used of it.
    pub closed spec fn view(&self) -> DiscoveryBudgetView {
        DiscoveryBudgetView {
            max_requests: self.max_requests,
            max_bytes: self.max_bytes,
            requests_used: self.requests_used,
            bytes_used: self.bytes_used,
        }
    }

    /// A budget of which nothing has been used; `None` means no limit.
    pub fn new(max_requests: Option<usize>, max_bytes: Option<u64>) -> (budget: Self)
        ensures
            budget@ == (DiscoveryBudgetView {
                max_requests,
                max_bytes,
                requests_used: 0,
                bytes_used: 0,
            }),
            budget@.within_limit(),
    {
        DiscoveryBudget { max_requests, max_bytes, requests_used: 0, bytes_used: 0 }
    }

    /// Reserves a request before it is made, or refuses it. A refused request
    /// uses up nothing.
    pub fn check_before_request(&mut self) -> (r: Result<(), AcdpError>)
        requires
            old(self)@.within_limit(),
        ensures
            final(self)@.within_limit(),
            match r {
                Ok(()) => old(self)@.obstacle() is None && final(self)@ == old(self)@.reserved(),
                Err(e) => {
                    &&& old(self)@.obstacle() matches Some(limit)
                    &&& e@ == AcdpError::<Seq<char>>::RevocationDiscoveryBudgetExceeded(limit)
                    &&& final(self)@ == old(self)@
                },
            },
    {
        if let Some(limit) = self.max_bytes {
            if self.bytes_used >= limit {
                return Err(
                    AcdpError::RevocationDiscoveryBudgetExceeded(BudgetLimit::Bytes { limit }),
                );
            }
        }
        if let Some(limit) = self.max_requests {
            if self.requests_used >= limit {
                return Err(
                    AcdpError::RevocationDiscoveryBudgetExceeded(
                        BudgetLimit::Requests { limit: limit as u64 },
                    ),
                );
            }
            self.requests_used = self.requests_used + 1;
        }
        Ok(())
    }

    /// Counts the bytes of a response that was read. It is the next request
    /// that finds the budget used up: how large a response will be is not
    /// known before.
    pub fn record_bytes(&mut self, n: usize)
        ensures
            final(self)@ == old(self)@.charged(n as int),
    {
        self.bytes_used = self.bytes_used.wrapping_add(n as u64);
    }
}

/// A budget without limits never stands in the way.
pub proof fn law_no_limits_no_obstacle(budget: DiscoveryBudgetView)
    requires
        budget.max_requests is None,
        budget.max_bytes is None,
    ensures
        budget.obstacle() is None,
{
}

/// The budget after `n` requests have been reserved.
pub open spec fn after_requests(budget: DiscoveryBudgetView, n: nat) -> DiscoveryBudgetView
    decreases n,
{
    if n == 0 {
        budget
    } else {
        after_requests(budget, (n - 1) as nat).reserved()
    }
}

/// Whether `n` requests in a row are let through.
pub open spec fn lets_through(budget: DiscoveryBudgetView, n: nat) -> bool
    decreases n,
{
    n > 0 ==> lets_through(budget, (n - 1) as nat) && after_requests(
        budget,
        (n - 1) as nat,
    ).obstacle() is None
}

/// However many requests are made, and by whichever of the searches that
/// share the budget, no more are let through than it has left.
pub proof fn law_requests_never_exceed_the_budget(budget: DiscoveryBudgetView, n: nat)
    requires
        budget.within_limit(),
        lets_through(budget, n),
    ensures
        budget.max_requests matches Some(max) ==> budget.requests_used + n <= max,
{
    lemma_after_requests(budget, n);
}

proof fn lemma_after_requests(budget: DiscoveryBudgetView, n: nat)
    requires
        budget.within_limit(),
        lets_through(budget, n),
    ensures
        budget.max_requests matches Some(max) ==> {
            &&& budget.requests_used + n <= max
            &&& after_requests(budget, n).requests_used == budget.requests_used + n
            &&& after_requests(budget, n).max_requests == Some(max)
        },
    decreases n,
{
    if n > 0 {
        lemma_after_requests(budget, (n - 1) as nat);
    }
}

/// A budget whose bytes are used up lets nothing through any more, whatever
/// requests it has left.
pub proof fn law_used_up_bytes_stop_everything(budget: DiscoveryBudgetView)
    requires
        budget.max_bytes matches Some(max) && budget.bytes_used >= max,
    ensures
        budget.obstacle() matches Some(BudgetLimit::Bytes { .. }),
{
}

/// A budget lets a request through exactly if neither of its limits is
/// reached; a limit that is not set is never reached.
pub proof fn law_what_a_budget_lets_through(budget: DiscoveryBudgetView)
    ensures
        budget.obstacle() is None <==> (budget.max_bytes matches Some(max) ==> budget.bytes_used
            < max) && (budget.max_requests matches Some(max) ==> budget.requests_used < max),
        budget.obstacle() matches Some(BudgetLimit::Bytes { limit }) ==> budget.max_bytes == Some(
            limit,
        ),
        budget.obstacle() matches Some(BudgetLimit::Requests { limit }) ==> budget.max_requests
            is Some && budget.max_requests->Some_0 == limit,
{
}

/// A request that is let through counts as one where requests are limited,
/// and what is read counts in full, as long as the count has room; nothing
/// else about the budget changes.
pub proof fn law_what_a_request_costs(budget: DiscoveryBudgetView, n: nat)
    ensures
        budget.requests_used < usize::MAX && budget.max_requests is Some
            ==> budget.reserved().requests_used == budget.requests_used + 1,
        budget.reserved().bytes_used == budget.bytes_used,
        budget.reserved().max_bytes == budget.max_bytes,
        budget.reserved().max_requests == budget.max_requests,
        budget.bytes_used + n <= u64::MAX ==> budget.charged(n as int).bytes_used
            == budget.bytes_used + n,
        budget.charged(n as int).requests_used == budget.requests_used,
        budget.charged(n as int).max_bytes == budget.max_bytes,
        budget.charged(n as int).max_requests == budget.max_requests,
{
}

/// A count of bytes that has no more room starts over.
pub proof fn law_byte_counts_wrap(budget: DiscoveryBudgetView, n: u64)
    ensures
        budget.bytes_used + n > u64::MAX ==> budget.charged(n as int).bytes_used
            == budget.bytes_used + n - 0x1_0000_0000_0000_0000,
{
}

} // verus!
