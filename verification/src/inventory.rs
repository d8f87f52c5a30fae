//! What workers report of their caches, and when a report is trusted.

use vstd::prelude::*;

use crate::binary64::Binary64;
use crate::digest;

verus! {

/// The most reusable tokens that a report may claim.
pub const MAX_REUSABLE_TOKENS: usize = 4_000_000;

/// The most cached bytes that a report may claim: 2^50.
pub const MAX_KV_BYTES: u64 = 0x4_0000_0000_0000;

/// The most reports that one request may carry.
pub const MAX_STATUSES: usize = 256;

/// One data-parallel rank of a worker.
#[derive(Debug, Clone, Copy, PartialEq, Eq, Structural, Hash)]
pub struct WorkerWithDpRank {
    pub worker_id: u64,
    pub dp_rank: u32,
}

/// Where a worker keeps a cached prefix.
#[derive(Debug, Clone, Copy, PartialEq, Eq, Structural)]
pub enum AgentCacheTier {
    Device,
    HostPinned,
    Disk,
    External,
    Unknown,
}

/// What the agent that owns a cached prefix is doing.
#[derive(Debug, Clone, Copy, PartialEq, Eq, Structural)]
pub enum AgentCacheLifecycle {
    Active,
    ToolWaiting,
    Completed,
    Cancelled,
    Unknown,
}

/// Why no cached prefix is used.
#[derive(Debug, Clone, Copy, PartialEq, Eq, Structural)]
pub enum AgentCacheMissReason {
    Stale,
    EpochLag,
    WorkerOffline,
    PlannerOnly,
    ExactMiss,
    RestoreTimeout,
    InsufficientData,
    NoMiss,
}

/// Privacy-safe logical cache inventory exported by an inference worker.
/// Digests are opaque identities; raw tokens, prompts, queries, and block
/// handles are forbidden.
#[derive(Debug, Clone)]
pub struct AgentCacheStatus {
    pub worker: WorkerWithDpRank,
    pub namespace_digest: String,
    pub identity_digest: String,
    pub reusable_tokens: usize,
    pub estimated_bytes: Option<u64>,
    pub actual_bytes: Option<u64>,
    pub tier: AgentCacheTier,
    pub epoch: u64,
    pub timestamp_ms: u64,
    pub physical_exact_hit: bool,
    pub planner_candidate: bool,
    pub lease_expires_at_ms: Option<u64>,
    pub lifecycle: AgentCacheLifecycle,
    pub miss_reason: AgentCacheMissReason,
    pub lookup_cost_blocks: Option<Binary64>,
    pub restore_cost_blocks: Option<Binary64>,
    pub transfer_bytes_per_block_cost: Option<Binary64>,
}

/// What a request says of the cached prefix that it would like to reuse, with
/// the reports that it came with.
#[derive(Debug, Clone)]
pub struct AgentCacheRoutingSignals {
    pub namespace_digest: String,
    pub identity_digest: String,
    pub expected_epoch: u64,
    /// Producer time used for deterministic freshness checks; the router never
    /// trusts wall-clock values hidden in metadata.
    pub now_ms: u64,
    pub soft_affinity_worker: Option<WorkerWithDpRank>,
    pub statuses: Vec<AgentCacheStatus>,
}

impl Default for AgentCacheTier {
    fn default() -> (tier: Self)
        ensures
            tier == AgentCacheTier::Unknown,
    {
        AgentCacheTier::Unknown
    }
}

impl Default for AgentCacheLifecycle {
    fn default() -> (lifecycle: Self)
        ensures
            lifecycle == AgentCacheLifecycle::Unknown,
    {
        AgentCacheLifecycle::Unknown
    }
}

impl Default for AgentCacheMissReason {
    fn default() -> (reason: Self)
        ensures
            reason == AgentCacheMissReason::NoMiss,
    {
        AgentCacheMissReason::NoMiss
    }
}

impl Default for AgentCacheRoutingSignals {
    fn default() -> (signals: Self)
        ensures
            signals.namespace_digest@ == Seq::<char>::empty(),
            signals.identity_digest@ == Seq::<char>::empty(),
            signals.expected_epoch == 0,
            signals.now_ms == 0,
            signals.soft_affinity_worker is None,
            signals.statuses@ == Seq::<AgentCacheStatus>::empty(),
    {
        AgentCacheRoutingSignals {
            namespace_digest: String::new(),
            identity_digest: String::new(),
            expected_epoch: 0,
            now_ms: 0,
            soft_affinity_worker: None,
            statuses: Vec::new(),
        }
    }
}

impl AgentCacheTier {
    /// The name in metrics.
    pub open spec fn label(self) -> Seq<char> {
        match self {
            AgentCacheTier::Device => "device"@,
            AgentCacheTier::HostPinned => "host_pinned"@,
            AgentCacheTier::Disk => "disk"@,
            AgentCacheTier::External => "external"@,
            AgentCacheTier::Unknown => "unknown"@,
        }
    }

    /// The name of the tier in metrics.
    pub fn metric_label(self) -> (label: &'static str)
        ensures
            label@ == self.label(),
    {
        match self {
            AgentCacheTier::Device => "device",
            AgentCacheTier::HostPinned => "host_pinned",
            AgentCacheTier::Disk => "disk",
            AgentCacheTier::External => "external",
            AgentCacheTier::Unknown => "unknown",
        }
    }
}

impl AgentCacheMissReason {
    /// The name in metrics.
    pub open spec fn label(self) -> Seq<char> {
        match self {
            AgentCacheMissReason::Stale => "stale"@,
            AgentCacheMissReason::EpochLag => "epoch_lag"@,
            AgentCacheMissReason::WorkerOffline => "worker_offline"@,
            AgentCacheMissReason::PlannerOnly => "planner_only"@,
            AgentCacheMissReason::ExactMiss => "exact_miss"@,
            AgentCacheMissReason::RestoreTimeout => "restore_timeout"@,
            AgentCacheMissReason::InsufficientData => "insufficient_data"@,
            AgentCacheMissReason::NoMiss => "selected"@,
        }
    }

    /// The name of the reason in metrics.
    pub fn metric_label(self) -> (label: &'static str)
        ensures
            label@ == self.label(),
    {
        match self {
            AgentCacheMissReason::Stale => "stale",
            AgentCacheMissReason::EpochLag => "epoch_lag",
            AgentCacheMissReason::WorkerOffline => "worker_offline",
            AgentCacheMissReason::PlannerOnly => "planner_only",
            AgentCacheMissReason::ExactMiss => "exact_miss",
            AgentCacheMissReason::RestoreTimeout => "restore_timeout",
            AgentCacheMissReason::InsufficientData => "insufficient_data",
            AgentCacheMissReason::NoMiss => "selected",
        }
    }
}

/// Whether a cost, where there is one, is finite and not less than zero.
pub open spec fn acceptable(cost: Option<Binary64>) -> bool {
    cost matches Some(v) ==> v.finite() && v.units() >= 0
}

/// Whether a cost, where there is one, is finite and not less than zero.
pub fn finite_non_negative(cost: Option<Binary64>) -> (accepted: bool)
    ensures
        accepted == acceptable(cost),
{
    match cost {
        Some(v) => v.is_finite_non_negative(),
        None => true,
    }
}

/// Whether a byte count, where there is one, is within bounds.
pub open spec fn bounded_bytes(bytes: Option<u64>) -> bool {
    bytes matches Some(v) ==> v <= MAX_KV_BYTES
}

fn has_bounded_bytes(bytes: Option<u64>) -> (bounded: bool)
    ensures
        bounded == bounded_bytes(bytes),
{
    match bytes {
        Some(v) => v <= MAX_KV_BYTES,
        None => true,
    }
}

impl AgentCacheRoutingSignals {
    /// Whether the request's own data can be used at all.
    pub open spec fn valid(self) -> bool {
        &&& digest::is_digest(self.namespace_digest@)
        &&& digest::is_digest(self.identity_digest@)
        &&& self.statuses@.len() <= MAX_STATUSES
    }

    /// Whether the request's own data can be used at all.
    pub fn is_valid(&self) -> (valid: bool)
        ensures
            valid == self.valid(),
    {
        digest::valid_digest(self.namespace_digest.as_str()) && digest::valid_digest(
            self.identity_digest.as_str(),
        ) && self.statuses.len() <= MAX_STATUSES
    }
}

impl AgentCacheStatus {
    /// Whether the report speaks of what the request asks for, and every figure
    /// in it is within bounds.
    pub open spec fn sound_for(self, request: AgentCacheRoutingSignals) -> bool {
        &&& digest::is_digest(self.namespace_digest@)
        &&& digest::is_digest(self.identity_digest@)
        &&& self.namespace_digest@ == request.namespace_digest@
        &&& self.identity_digest@ == request.identity_digest@
        &&& 0 < self.reusable_tokens <= MAX_REUSABLE_TOKENS
        &&& bounded_bytes(self.estimated_bytes)
        &&& bounded_bytes(self.actual_bytes)
        &&& self.acceptable_figures()
    }

    /// Whether every cost figure that the report gives is finite and not less
    /// than zero.
    pub open spec fn acceptable_figures(self) -> bool {
        &&& acceptable(self.lookup_cost_blocks)
        &&& acceptable(self.restore_cost_blocks)
        &&& acceptable(self.transfer_bytes_per_block_cost)
    }

    /// Whether the report was made within `ttl` of the request's time, before
    /// or after it.
    pub open spec fn fresh_for(self, request: AgentCacheRoutingSignals, ttl: u64) -> bool {
        -ttl <= request.now_ms - self.timestamp_ms <= ttl
    }

    /// Whether the report is trusted, or else the first reason why it is not.
    pub open spec fn verdict(self, request: AgentCacheRoutingSignals, ttl: u64) -> Result<
        (),
        AgentCacheMissReason,
    > {
        if !self.sound_for(request) {
            Err(AgentCacheMissReason::InsufficientData)
        } else if self.epoch < request.expected_epoch {
            Err(AgentCacheMissReason::EpochLag)
        } else if !self.fresh_for(request, ttl) {
            Err(AgentCacheMissReason::Stale)
        } else if self.physical_exact_hit {
            Ok(())
        } else if self.planner_candidate {
            Err(AgentCacheMissReason::PlannerOnly)
        } else {
            Err(self.miss_reason)
        }
    }

    /// Whether the report is trusted, or else the first reason why it is not.
    pub fn validate_for(
        &self,
        request: &AgentCacheRoutingSignals,
        inventory_ttl_ms: u64,
    ) -> (verdict: Result<(), AgentCacheMissReason>)
        ensures
            verdict == self.verdict(*request, inventory_ttl_ms),
    {
        if !digest::valid_digest(self.namespace_digest.as_str()) || !digest::valid_digest(
            self.identity_digest.as_str(),
        ) || !(self.namespace_digest == request.namespace_digest) || !(self.identity_digest
            == request.identity_digest) || self.reusable_tokens == 0 || self.reusable_tokens
            > MAX_REUSABLE_TOKENS || !has_bounded_bytes(self.estimated_bytes)
            || !has_bounded_bytes(self.actual_bytes) || !finite_non_negative(
            self.lookup_cost_blocks,
        ) || !finite_non_negative(self.restore_cost_blocks) || !finite_non_negative(
            self.transfer_bytes_per_block_cost,
        ) {
            return Err(AgentCacheMissReason::InsufficientData);
        }
        if self.epoch < request.expected_epoch {
            return Err(AgentCacheMissReason::EpochLag);
        }
        if request.now_ms.saturating_sub(self.timestamp_ms) > inventory_ttl_ms
            || self.timestamp_ms > request.now_ms.saturating_add(inventory_ttl_ms) {
            return Err(AgentCacheMissReason::Stale);
        }
        if !self.physical_exact_hit {
            return Err(
                if self.planner_candidate {
                    AgentCacheMissReason::PlannerOnly
                } else {
                    self.miss_reason
                },
            );
        }
        Ok(())
    }
}

} // verus!
