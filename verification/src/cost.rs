//! What each way of obtaining a prefix costs, in blocks of prefill work.

use vstd::prelude::*;

use crate::binary64;
use crate::binary64::Binary64;
use crate::inventory::{
    AgentCacheLifecycle, AgentCacheRoutingSignals, AgentCacheStatus, AgentCacheTier,
    WorkerWithDpRank,
};
use crate::rounding;

verus! {

/// A way of obtaining the prefix of a request.
#[derive(Debug, Clone, Copy, PartialEq, Eq, Structural)]
pub enum CacheAction {
    LocalExactHit,
    RemoteRestore,
    Recompute,
}

impl CacheAction {
    /// The name in metrics.
    pub open spec fn label(self) -> Seq<char> {
        match self {
            CacheAction::LocalExactHit => "local_exact_hit"@,
            CacheAction::RemoteRestore => "remote_restore"@,
            CacheAction::Recompute => "recompute"@,
        }
    }

    /// The name of the action in metrics.
    pub fn metric_label(self) -> (label: &'static str)
        ensures
            label@ == self.label(),
    {
        match self {
            CacheAction::LocalExactHit => "local_exact_hit",
            CacheAction::RemoteRestore => "remote_restore",
            CacheAction::Recompute => "recompute",
        }
    }
}

/// The cost of an action, with what it is made of. Less is better, and
/// computing the prefix anew costs nothing.
#[derive(Debug, Clone, Copy)]
pub struct CacheActionCost {
    pub action: CacheAction,
    pub saved_prefill_blocks: Binary64,
    pub queue_blocks: Binary64,
    pub lookup_blocks: Binary64,
    pub transfer_blocks: Binary64,
    pub restore_blocks: Binary64,
    pub load_imbalance_blocks: Binary64,
    pub staleness_risk_blocks: Binary64,
    pub affinity_break_blocks: Binary64,
    pub total_blocks: Binary64,
}

impl CacheActionCost {
    /// Whether two costs are equal, part by part.
    pub open spec fn same(self, other: CacheActionCost) -> bool {
        &&& self.action == other.action
        &&& self.saved_prefill_blocks.same(other.saved_prefill_blocks)
        &&& self.queue_blocks.same(other.queue_blocks)
        &&& self.lookup_blocks.same(other.lookup_blocks)
        &&& self.transfer_blocks.same(other.transfer_blocks)
        &&& self.restore_blocks.same(other.restore_blocks)
        &&& self.load_imbalance_blocks.same(other.load_imbalance_blocks)
        &&& self.staleness_risk_blocks.same(other.staleness_risk_blocks)
        &&& self.affinity_break_blocks.same(other.affinity_break_blocks)
        &&& self.total_blocks.same(other.total_blocks)
    }
}

impl PartialEq for CacheActionCost {
    fn eq(&self, other: &CacheActionCost) -> (equal: bool) {
        self.action == other.action && self.saved_prefill_blocks == other.saved_prefill_blocks
            && self.queue_blocks == other.queue_blocks && self.lookup_blocks == other.lookup_blocks
            && self.transfer_blocks == other.transfer_blocks && self.restore_blocks
            == other.restore_blocks && self.load_imbalance_blocks == other.load_imbalance_blocks
            && self.staleness_risk_blocks == other.staleness_risk_blocks
            && self.affinity_break_blocks == other.affinity_break_blocks && self.total_blocks
            == other.total_blocks
    }
}

impl vstd::std_specs::cmp::PartialEqSpecImpl for CacheActionCost {
    open spec fn obeys_eq_spec() -> bool {
        true
    }

    open spec fn eq_spec(&self, other: &CacheActionCost) -> bool {
        self.same(*other)
    }
}

/// Whether a number can stand for a cost or a saving: it is a number, and not
/// less than zero.
pub open spec fn is_amount(number: Binary64) -> bool {
    !number.nan() && number.units() >= 0
}

/// Amounts add up to amounts.
pub proof fn lemma_amounts_add(a: Binary64, b: Binary64)
    requires
        is_amount(a),
        is_amount(b),
    ensures
        is_amount(a.plus(b)),
        a.summable(b),
{
    rounding::lemma_value_at_least(a.magnitude());
    rounding::lemma_value_at_least(b.magnitude());
    rounding::lemma_value_at_least(a.plus(b).magnitude());
}

impl CacheActionCost {
    /// The cost of computing the prefix anew: zero in every part.
    pub open spec fn nothing() -> CacheActionCost {
        CacheActionCost {
            action: CacheAction::Recompute,
            saved_prefill_blocks: Binary64::nought(),
            queue_blocks: Binary64::nought(),
            lookup_blocks: Binary64::nought(),
            transfer_blocks: Binary64::nought(),
            restore_blocks: Binary64::nought(),
            load_imbalance_blocks: Binary64::nought(),
            staleness_risk_blocks: Binary64::nought(),
            affinity_break_blocks: Binary64::nought(),
            total_blocks: Binary64::nought(),
        }
    }

    /// The cost of an action from its parts: the charges, added up in this
    /// order, less the saving. Queue and load stay with the caller's own score.
    pub open spec fn of(
        action: CacheAction,
        saved: Binary64,
        lookup: Binary64,
        transfer: Binary64,
        restore: Binary64,
        risk: Binary64,
        affinity: Binary64,
    ) -> CacheActionCost {
        CacheActionCost {
            action,
            saved_prefill_blocks: saved,
            queue_blocks: Binary64::nought(),
            lookup_blocks: lookup,
            transfer_blocks: transfer,
            restore_blocks: restore,
            load_imbalance_blocks: Binary64::nought(),
            staleness_risk_blocks: risk,
            affinity_break_blocks: affinity,
            total_blocks: lookup.plus(transfer).plus(restore).plus(risk).plus(affinity).plus(
                saved.negated(),
            ),
        }
    }

    /// The cost of computing the prefix anew.
    pub fn recompute() -> (cost: Self)
        ensures
            cost == CacheActionCost::nothing(),
    {
        CacheActionCost {
            action: CacheAction::Recompute,
            saved_prefill_blocks: Binary64 { bits: 0 },
            queue_blocks: Binary64 { bits: 0 },
            lookup_blocks: Binary64 { bits: 0 },
            transfer_blocks: Binary64 { bits: 0 },
            restore_blocks: Binary64 { bits: 0 },
            load_imbalance_blocks: Binary64 { bits: 0 },
            staleness_risk_blocks: Binary64 { bits: 0 },
            affinity_break_blocks: Binary64 { bits: 0 },
            total_blocks: Binary64 { bits: 0 },
        }
    }

    /// The cost of an action from its parts.
    pub(crate) fn new(
        action: CacheAction,
        saved_prefill_blocks: Binary64,
        lookup_blocks: Binary64,
        transfer_blocks: Binary64,
        restore_blocks: Binary64,
        staleness_risk_blocks: Binary64,
        affinity_break_blocks: Binary64,
    ) -> (cost: Self)
        requires
            is_amount(saved_prefill_blocks) && saved_prefill_blocks.finite(),
            is_amount(lookup_blocks),
            is_amount(transfer_blocks),
            is_amount(restore_blocks),
            is_amount(staleness_risk_blocks),
            is_amount(affinity_break_blocks),
        ensures
            cost == CacheActionCost::of(
                action,
                saved_prefill_blocks,
                lookup_blocks,
                transfer_blocks,
                restore_blocks,
                staleness_risk_blocks,
                affinity_break_blocks,
            ),
            !cost.total_blocks.nan(),
    {
        proof {
            lemma_amounts_add(lookup_blocks, transfer_blocks);
        }
        let fetched: Binary64 = lookup_blocks.sum(transfer_blocks);
        proof {
            lemma_amounts_add(fetched, restore_blocks);
        }
        let restored: Binary64 = fetched.sum(restore_blocks);
        proof {
            lemma_amounts_add(restored, staleness_risk_blocks);
        }
        let risked: Binary64 = restored.sum(staleness_risk_blocks);
        proof {
            lemma_amounts_add(risked, affinity_break_blocks);
        }
        let charged: Binary64 = risked.sum(affinity_break_blocks);
        let total_blocks: Binary64 = charged.sum(saved_prefill_blocks.negation());
        CacheActionCost {
            action,
            saved_prefill_blocks,
            queue_blocks: Binary64 { bits: 0 },
            lookup_blocks,
            transfer_blocks,
            restore_blocks,
            load_imbalance_blocks: Binary64 { bits: 0 },
            staleness_risk_blocks,
            affinity_break_blocks,
            total_blocks,
        }
    }
}

impl AgentCacheStatus {
    /// Whether the lease on the prefix runs on after `now`.
    pub open spec fn leased(self, now: u64) -> bool {
        self.lease_expires_at_ms matches Some(expiry) && expiry > now
    }

    /// What the agent's lifecycle adds for the risk that the prefix goes away.
    pub open spec fn risk(self, now: u64) -> Binary64 {
        match self.lifecycle {
            AgentCacheLifecycle::Active => Binary64::nought(),
            AgentCacheLifecycle::ToolWaiting => if self.leased(now) {
                Binary64::nought()
            } else {
                Binary64 { bits: binary64::ONE_BITS }
            },
            AgentCacheLifecycle::Completed => Binary64 { bits: binary64::ONE_AND_A_HALF_BITS },
            AgentCacheLifecycle::Cancelled => Binary64 { bits: binary64::TWO_BITS },
            AgentCacheLifecycle::Unknown => Binary64 { bits: binary64::HALF_BITS },
        }
    }

    /// What is charged for leaving the worker that the request prefers, while
    /// the lease runs.
    pub open spec fn affinity(
        self,
        request: AgentCacheRoutingSignals,
        worker: WorkerWithDpRank,
    ) -> Binary64 {
        if self.leased(request.now_ms) && (request.soft_affinity_worker matches Some(preferred)
            && preferred != worker) {
            Binary64 { bits: binary64::ONE_BITS }
        } else {
            Binary64::nought()
        }
    }

    /// The prefill work that the prefix saves: its tokens, as a number, over the
    /// block size.
    pub open spec fn saving(self, block_size: u32) -> Binary64
        recommends
            block_size > 0,
    {
        Binary64::ratio(rounding::rounded(self.reusable_tokens as nat), block_size as nat)
    }

    /// The measured size of the prefix, or else the estimated one.
    pub open spec fn known_bytes(self) -> Option<u64> {
        if self.actual_bytes is Some {
            self.actual_bytes
        } else {
            self.estimated_bytes
        }
    }

    /// The cost of using the prefix where it lies.
    pub open spec fn local(
        self,
        block_size: u32,
        request: AgentCacheRoutingSignals,
        worker: WorkerWithDpRank,
    ) -> CacheActionCost
        recommends
            block_size > 0,
    {
        CacheActionCost::of(
            CacheAction::LocalExactHit,
            self.saving(block_size),
            Binary64::nought(),
            Binary64::nought(),
            Binary64::nought(),
            self.risk(request.now_ms),
            self.affinity(request, worker),
        )
    }

    /// The cost of bringing the prefix to the worker. There is none where the
    /// prefix already lies on the worker's device, where the report leaves out
    /// a figure, and where the transfer cost is beyond every finite number.
    pub open spec fn remote(
        self,
        block_size: u32,
        request: AgentCacheRoutingSignals,
        worker: WorkerWithDpRank,
    ) -> Option<CacheActionCost>
        recommends
            block_size > 0,
            self.acceptable_figures(),
    {
        if self.worker == worker && self.tier == AgentCacheTier::Device {
            None
        } else if self.known_bytes() is None || self.transfer_bytes_per_block_cost is None
            || self.lookup_cost_blocks is None || self.restore_cost_blocks is None {
            None
        } else {
            let transfer = self.transfer_bytes_per_block_cost->0.times(
                rounding::rounded(self.known_bytes()->0 as nat),
            );
            if transfer.finite() {
                Some(
                    CacheActionCost::of(
                        CacheAction::RemoteRestore,
                        self.saving(block_size),
                        self.lookup_cost_blocks->0,
                        transfer,
                        self.restore_cost_blocks->0,
                        self.risk(request.now_ms).plus(Binary64 { bits: binary64::HALF_BITS }),
                        self.affinity(request, worker),
                    ),
                )
            } else {
                None
            }
        }
    }

    fn has_lease(&self, now_ms: u64) -> (leased: bool)
        ensures
            leased == self.leased(now_ms),
    {
        match self.lease_expires_at_ms {
            Some(expiry) => expiry > now_ms,
            None => false,
        }
    }

    /// What the agent's lifecycle adds for the risk that the prefix goes away.
    pub fn lifecycle_risk(&self, now_ms: u64) -> (risk: Binary64)
        ensures
            risk == self.risk(now_ms),
            is_amount(risk),
    {
        match self.lifecycle {
            AgentCacheLifecycle::Active => Binary64 { bits: 0 },
            AgentCacheLifecycle::ToolWaiting => {
                if self.has_lease(now_ms) {
                    Binary64 { bits: 0 }
                } else {
                    Binary64 { bits: binary64::ONE_BITS }
                }
            },
            AgentCacheLifecycle::Completed => Binary64 { bits: binary64::ONE_AND_A_HALF_BITS },
            AgentCacheLifecycle::Cancelled => Binary64 { bits: binary64::TWO_BITS },
            AgentCacheLifecycle::Unknown => Binary64 { bits: binary64::HALF_BITS },
        }
    }

    /// What is charged for leaving the worker that the request prefers, while
    /// the lease runs.
    pub fn affinity_break(
        &self,
        request: &AgentCacheRoutingSignals,
        worker: WorkerWithDpRank,
    ) -> (charge: Binary64)
        ensures
            charge == self.affinity(*request, worker),
            is_amount(charge),
    {
        let elsewhere: bool = match request.soft_affinity_worker {
            Some(preferred) => preferred != worker,
            None => false,
        };
        if self.has_lease(request.now_ms) && elsewhere {
            Binary64 { bits: binary64::ONE_BITS }
        } else {
            Binary64 { bits: 0 }
        }
    }

    /// The cost of using the prefix where it lies.
    pub(crate) fn local_cost(
        &self,
        block_size: u32,
        request: &AgentCacheRoutingSignals,
        worker: WorkerWithDpRank,
    ) -> (cost: CacheActionCost)
        requires
            block_size > 0,
        ensures
            cost == self.local(block_size, *request, worker),
            !cost.total_blocks.nan(),
    {
        let saved: Binary64 = Binary64::quotient(self.reusable_tokens as u64, block_size);
        CacheActionCost::new(
            CacheAction::LocalExactHit,
            saved,
            Binary64 { bits: 0 },
            Binary64 { bits: 0 },
            Binary64 { bits: 0 },
            self.lifecycle_risk(request.now_ms),
            self.affinity_break(request, worker),
        )
    }

    /// The cost of bringing the prefix to the worker, where there is one.
    pub(crate) fn remote_cost(
        &self,
        block_size: u32,
        request: &AgentCacheRoutingSignals,
        worker: WorkerWithDpRank,
    ) -> (cost: Option<CacheActionCost>)
        requires
            block_size > 0,
            self.acceptable_figures(),
        ensures
            cost == self.remote(block_size, *request, worker),
            cost matches Some(c) ==> !c.total_blocks.nan(),
    {
        if self.worker == worker && self.tier == AgentCacheTier::Device {
            return None;
        }
        let bytes: u64 = match self.actual_bytes {
            Some(actual) => actual,
            None => match self.estimated_bytes {
                Some(estimated) => estimated,
                None => {
                    return None;
                },
            },
        };
        let transfer_rate: Binary64 = self.transfer_bytes_per_block_cost?;
        let lookup: Binary64 = self.lookup_cost_blocks?;
        let restore: Binary64 = self.restore_cost_blocks?;
        let transfer: Binary64 = transfer_rate.product(bytes);
        if !transfer.is_finite() {
            return None;
        }
        let saved: Binary64 = Binary64::quotient(self.reusable_tokens as u64, block_size);
        let risk: Binary64 = self.lifecycle_risk(request.now_ms);
        let half: Binary64 = Binary64 { bits: binary64::HALF_BITS };
        proof {
            lemma_amounts_add(risk, half);
        }
        Some(
            CacheActionCost::new(
                CacheAction::RemoteRestore,
                saved,
                lookup,
                transfer,
                restore,
                risk.sum(half),
                self.affinity_break(request, worker),
            ),
        )
    }
}

} // verus!
