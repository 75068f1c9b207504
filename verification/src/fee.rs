//! The fee scheduler: for each share a miner submits, which pool receives it.
//!
//! The rule is deterministic. After `n` shares in skim mode at `rate`
//! percent, exactly `n * rate / 100` (rounded down) have gone to the
//! developer pool, so the realised fraction is never more than one share away
//! from the configured one and fee shares are spread evenly.

use crate::util::config::ShareMode;
use vstd::prelude::*;

verus! {

/// The pool that one share is sent to.
#[derive(Debug, Clone, Copy, PartialEq, Eq, Structural)]
pub enum Route {
    /// The miner's own pool.
    Real,
    /// The developer pool.
    Dev,
    /// The miner's pool, credited to the operator's unified wallet.
    Unified,
}

/// The number of developer shares owed after `total` shares at `rate`
/// percent.
pub open spec fn dev_quota(total: nat, rate: nat) -> nat {
    total * rate / 100
}

/// Where the next share goes, for a worker that has `total` shares behind it
/// of which `dev` went to the developer pool.
pub open spec fn decide(mode: ShareMode, rate: nat, total: nat, dev: nat) -> Route {
    match mode {
        ShareMode::PureProxy => Route::Real,
        ShareMode::UnifiedWallet => Route::Unified,
        ShareMode::Skim => if dev_quota(total + 1, rate) > dev {
            Route::Dev
        } else {
            Route::Real
        },
    }
}

/// Per-worker share counters, together with the mode and rate they are kept
/// for.
#[derive(Debug, Clone, Copy)]
pub struct FeeCounter {
    mode: ShareMode,
    rate: u64,
    submits_total: u64,
    submits_dev: u64,
    submits_unified: u64,
}

impl FeeCounter {
    /// The mode the counter was made for.
    pub closed spec fn mode(&self) -> ShareMode {
        self.mode
    }

    /// The configured percentage.
    pub closed spec fn rate(&self) -> nat {
        self.rate as nat
    }

    /// Shares routed so far.
    pub closed spec fn total(&self) -> nat {
        self.submits_total as nat
    }

    /// Shares routed to the developer pool so far.
    pub closed spec fn dev(&self) -> nat {
        self.submits_dev as nat
    }

    /// Shares rewritten to the unified wallet so far.
    pub closed spec fn unified(&self) -> nat {
        self.submits_unified as nat
    }

    /// The counters agree with the rule that produced them.
    pub closed spec fn wf(&self) -> bool {
        &&& self.rate <= 100
        &&& self.submits_dev == match self.mode {
            ShareMode::Skim => dev_quota(self.submits_total as nat, self.rate as nat),
            _ => 0,
        }
        &&& self.submits_unified == match self.mode {
            ShareMode::UnifiedWallet => self.submits_total,
            _ => 0,
        }
    }

    /// The counter after the next share has been routed and counted.
    pub closed spec fn after(self) -> FeeCounter {
        let route = decide(
            self.mode,
            self.rate as nat,
            self.submits_total as nat,
            self.submits_dev as nat,
        );
        FeeCounter {
            submits_total: (self.submits_total + 1) as u64,
            submits_dev: if route == Route::Dev {
                (self.submits_dev + 1) as u64
            } else {
                self.submits_dev
            },
            submits_unified: if route == Route::Unified {
                (self.submits_unified + 1) as u64
            } else {
                self.submits_unified
            },
            ..self
        }
    }

    /// A counter with no shares behind it.
    pub fn new(mode: ShareMode, rate: u64) -> (c: FeeCounter)
        requires
            rate <= 100,
        ensures
            c.wf(),
            c.mode() == mode,
            c.rate() == rate,
            c.total() == 0,
            c.dev() == 0,
            c.unified() == 0,
    {
        FeeCounter { mode, rate, submits_total: 0, submits_dev: 0, submits_unified: 0 }
    }

    /// Shares routed so far.
    pub fn submits_total(&self) -> (n: u64)
        ensures
            n == self.total(),
    {
        self.submits_total
    }

    /// Shares routed to the developer pool so far.
    pub fn submits_dev(&self) -> (n: u64)
        ensures
            n == self.dev(),
    {
        self.submits_dev
    }

    /// Shares rewritten to the unified wallet so far.
    pub fn submits_unified(&self) -> (n: u64)
        ensures
            n == self.unified(),
    {
        self.submits_unified
    }

    /// Whether another share can still be counted.
    pub fn has_room(&self) -> (b: bool)
        ensures
            b == (self.total() < u64::MAX),
    {
        self.submits_total < u64::MAX
    }

    /// Decides where the next share goes and counts it.
    pub fn route(&mut self) -> (r: Route)
        requires
            old(self).wf(),
            old(self).total() < u64::MAX,
        ensures
            *final(self) == old(self).after(),
            final(self).wf(),
            final(self).mode() == old(self).mode(),
            final(self).rate() == old(self).rate(),
            r == decide(old(self).mode(), old(self).rate(), old(self).total(), old(self).dev()),
            final(self).total() == old(self).total() + 1,
            final(self).dev() == old(self).dev() + if r == Route::Dev {
                1nat
            } else {
                0nat
            },
            final(self).unified() == old(self).unified() + if r == Route::Unified {
                1nat
            } else {
                0nat
            },
    {
        let n: u64 = self.submits_total;
        let rate: u64 = self.rate;
        proof {
            lemma_quota_step(n as nat, rate as nat);
            assert((n + 1) * rate <= (u64::MAX + 1) * 100) by (nonlinear_arith)
                requires
                    n <= u64::MAX,
                    rate <= 100,
            ;
        }
        self.submits_total = n + 1;
        match self.mode {
            ShareMode::PureProxy => Route::Real,
            ShareMode::UnifiedWallet => {
                self.submits_unified = self.submits_unified + 1;
                Route::Unified
            },
            ShareMode::Skim => {
                let want: u128 = ((n as u128) + 1) * (rate as u128) / 100;
                if want > self.submits_dev as u128 {
                    self.submits_dev = self.submits_dev + 1;
                    Route::Dev
                } else {
                    Route::Real
                }
            },
        }
    }
}

/// One more share raises the developer quota by at most one, and never above
/// the number of shares.
pub proof fn lemma_quota_step(total: nat, rate: nat)
    requires
        rate <= 100,
    ensures
        dev_quota(total, rate) <= dev_quota(total + 1, rate) <= dev_quota(total, rate) + 1,
        dev_quota(total, rate) <= total,
{
    let a = total * rate;
    assert((total + 1) * rate == a + rate) by (nonlinear_arith)
        requires
            a == total * rate,
    ;
    assert(a <= total * 100) by (nonlinear_arith)
        requires
            a == total * rate,
            rate <= 100,
    ;
}

/// In skim mode the developer pool's share of a worker's submissions is
/// never more than one submission away from the configured rate: with `n`
/// shares of which `d` went to the developer pool at `rate` percent,
/// `|d/n - rate/100| <= 1/n`, stated here multiplied out by `100 * n`.
///
/// Outside skim mode no share is redirected, so the bound holds only while
/// `n * rate` has not passed 100.
pub proof fn lemma_dev_share_within_one(c: FeeCounter)
    requires
        c.wf(),
        c.mode() == ShareMode::Skim || c.total() * c.rate() <= 100,
    ensures
        -100 <= 100 * c.dev() - c.total() * c.rate() <= 100,
{
    let a = c.total() * c.rate();
    assert(0 <= a) by (nonlinear_arith)
        requires
            a == c.total() * c.rate(),
    ;
}

/// What one more share does to a counter: it is counted once, for the route
/// that the rule picks, and the counter stays well-formed.
pub proof fn lemma_after(c: FeeCounter)
    requires
        c.wf(),
        c.total() < u64::MAX,
    ensures
        c.after().wf(),
        c.after().mode() == c.mode(),
        c.after().rate() == c.rate(),
        c.after().total() == c.total() + 1,
        c.after().dev() == c.dev() + if decide(c.mode(), c.rate(), c.total(), c.dev())
            == Route::Dev {
            1nat
        } else {
            0nat
        },
        c.after().unified() == c.unified() + if decide(c.mode(), c.rate(), c.total(), c.dev())
            == Route::Unified {
            1nat
        } else {
            0nat
        },
{
    lemma_quota_step(c.total(), c.rate());
}

/// The counters are machine integers.
pub proof fn lemma_counts_fit(c: FeeCounter)
    ensures
        c.total() <= u64::MAX,
        c.dev() <= u64::MAX,
        c.unified() <= u64::MAX,
        c.rate() <= u64::MAX,
{
}

/// In skim mode the developer count is exactly the quota: the realised
/// number of fee shares is the configured fraction rounded down.
pub proof fn lemma_dev_is_quota(c: FeeCounter)
    requires
        c.wf(),
        c.mode() == ShareMode::Skim,
    ensures
        c.dev() == dev_quota(c.total(), c.rate()),
        c.unified() == 0,
{
}

/// Outside skim mode nothing is redirected, and in unified mode every share
/// is rewritten.
pub proof fn lemma_no_redirection(c: FeeCounter)
    requires
        c.wf(),
        c.mode() != ShareMode::Skim,
    ensures
        c.dev() == 0,
        c.unified() == if c.mode() == ShareMode::UnifiedWallet {
            c.total()
        } else {
            0
        },
{
}

} // verus!
