//! What a request is routed by.

use vstd::prelude::*;

use crate::binary64::Binary64;
use crate::cost::{CacheAction, CacheActionCost};
use crate::inventory::{AgentCacheMissReason, AgentCacheTier};

verus! {

/// What a request is routed by on one worker.
#[derive(Debug, Clone, Copy)]
pub struct AgentCacheDecision {
    pub action: CacheAction,
    pub tier: AgentCacheTier,
    /// A bounded delta added to the router's own score. Negative is better.
    pub score_adjustment: Binary64,
    pub cost: CacheActionCost,
    pub fallback_reason: AgentCacheMissReason,
}

impl PartialEq for AgentCacheDecision {
    fn eq(&self, other: &AgentCacheDecision) -> (equal: bool) {
        self.action == other.action && self.tier == other.tier && self.score_adjustment
            == other.score_adjustment && self.cost == other.cost && self.fallback_reason
            == other.fallback_reason
    }
}

impl vstd::std_specs::cmp::PartialEqSpecImpl for AgentCacheDecision {
    open spec fn obeys_eq_spec() -> bool {
        true
    }

    open spec fn eq_spec(&self, other: &AgentCacheDecision) -> bool {
        &&& self.action == other.action
        &&& self.tier == other.tier
        &&& self.score_adjustment.same(other.score_adjustment)
        &&& self.cost.same(other.cost)
        &&& self.fallback_reason == other.fallback_reason
    }
}

/// The bound on adjustments: `max`, or zero where that is greater.
pub open spec fn bound(max: Binary64) -> Binary64 {
    if Binary64::nought().below(max) {
        max
    } else {
        Binary64::nought()
    }
}

/// `total` held between the negation of `limit` and `limit`.
pub open spec fn held(total: Binary64, limit: Binary64) -> Binary64 {
    if total.below(limit.negated()) {
        limit.negated()
    } else if limit.below(total) {
        limit
    } else {
        total
    }
}

impl AgentCacheDecision {
    /// Computing the prefix anew, for the given reason.
    pub open spec fn recomputing(reason: AgentCacheMissReason) -> AgentCacheDecision {
        AgentCacheDecision {
            action: CacheAction::Recompute,
            tier: AgentCacheTier::Unknown,
            score_adjustment: Binary64::nought(),
            cost: CacheActionCost::nothing(),
            fallback_reason: reason,
        }
    }

    /// Using the prefix at the given cost, if that is less than computing it
    /// anew.
    pub open spec fn weighing(
        cost: CacheActionCost,
        tier: AgentCacheTier,
        max: Binary64,
    ) -> AgentCacheDecision
        recommends
            !cost.total_blocks.nan(),
            max.finite(),
    {
        if cost.total_blocks.below(CacheActionCost::nothing().total_blocks) {
            AgentCacheDecision {
                action: cost.action,
                tier,
                score_adjustment: held(cost.total_blocks, bound(max)),
                cost,
                fallback_reason: AgentCacheMissReason::NoMiss,
            }
        } else {
            AgentCacheDecision::recomputing(AgentCacheMissReason::NoMiss)
        }
    }

    /// A decision for computing the prefix anew.
    pub fn fallback(cost: CacheActionCost, fallback_reason: AgentCacheMissReason) -> (decision:
        Self)
        ensures
            decision == (AgentCacheDecision {
                cost,
                ..AgentCacheDecision::recomputing(fallback_reason)
            }),
    {
        AgentCacheDecision {
            action: CacheAction::Recompute,
            tier: AgentCacheTier::Unknown,
            score_adjustment: Binary64 { bits: 0 },
            cost,
            fallback_reason,
        }
    }

    /// Using the prefix at the given cost, if that is less than computing it
    /// anew.
    pub(crate) fn weigh(cost: CacheActionCost, tier: AgentCacheTier, max: Binary64) -> (decision: Self)
        ensures
            decision == AgentCacheDecision::weighing(cost, tier, max),
    {
        let zero: Binary64 = Binary64 { bits: 0 };
        if !cost.total_blocks.is_less(zero) {
            return AgentCacheDecision::fallback(
                CacheActionCost::recompute(),
                AgentCacheMissReason::NoMiss,
            );
        }
        let limit: Binary64 = if zero.is_less(max) {
            max
        } else {
            zero
        };
        let floor: Binary64 = limit.negation();
        let score_adjustment: Binary64 = if cost.total_blocks.is_less(floor) {
            floor
        } else if limit.is_less(cost.total_blocks) {
            limit
        } else {
            cost.total_blocks
        };
        AgentCacheDecision {
            action: cost.action,
            tier,
            score_adjustment,
            cost,
            fallback_reason: AgentCacheMissReason::NoMiss,
        }
    }
}

} // verus!
