//! What each operation is for, in terms of what goes in and what comes out.

use vstd::prelude::*;

use crate::binary64;
use crate::binary64::Binary64;
use crate::cost::{CacheAction, CacheActionCost};
use crate::decision::AgentCacheDecision;
use crate::digest;
use crate::inventory;
use crate::inventory::{
    AgentCacheLifecycle, AgentCacheMissReason, AgentCacheRoutingSignals, AgentCacheStatus,
    AgentCacheTier, WorkerWithDpRank,
};
use crate::laws;
use crate::numbers;
use crate::rounding;

verus! {

// Digests.

/// Each of the 64 accepted characters makes a digest by itself, and no other
/// character does.
pub proof fn law_one_character_digests(c: char)
    ensures
        digest::is_digest(seq![c]) <==> {
            let code = c as u32;
            ||| 48 <= code <= 57
            ||| 65 <= code <= 90
            ||| 97 <= code <= 122
            ||| code == 45
            ||| code == 95
        },
{
    let one = seq![c];
    assert(one[0] == c);
}

/// A text is a digest just where it has 1 to 128 characters and each of them,
/// wherever it stands, makes a digest by itself.
pub proof fn law_digests_go_by_character(text: Seq<char>)
    ensures
        digest::is_digest(text) <==> 1 <= text.len() <= 128 && forall|i: int|
            0 <= i < text.len() ==> digest::is_digest(seq![#[trigger] text[i]]),
{
    assert forall|i: int| 0 <= i < text.len() implies digest::is_digest(
        seq![#[trigger] text[i]],
    ) == digest::digest_char(text[i]) by {
        let one = seq![text[i]];
        assert(one[0] == text[i]);
    }
}

/// The order of the characters does not matter.
pub proof fn law_digests_may_be_reordered(one: Seq<char>, other: Seq<char>)
    requires
        one.to_multiset() == other.to_multiset(),
    ensures
        digest::is_digest(one) == digest::is_digest(other),
{
    broadcast use vstd::seq_lib::group_to_multiset_ensures;

    assert(one.len() == one.to_multiset().len());
    assert(other.len() == other.to_multiset().len());
    assert forall|i: int| 0 <= i < one.len() implies exists|j: int|
        0 <= j < other.len() && #[trigger] other[j] == #[trigger] one[i] by {
        assert(one.contains(one[i]));
        assert(one.to_multiset().count(one[i]) > 0);
        assert(other.contains(one[i]));
    }
    assert forall|i: int| 0 <= i < other.len() implies exists|j: int|
        0 <= j < one.len() && #[trigger] one[j] == #[trigger] other[i] by {
        assert(other.contains(other[i]));
        assert(other.to_multiset().count(other[i]) > 0);
        assert(one.contains(other[i]));
    }
}

/// Two digests, one behind the other, make a digest as long as it is not too
/// long, and nothing else that is split in two does.
pub proof fn law_digests_join(front: Seq<char>, back: Seq<char>)
    requires
        front.len() > 0,
        back.len() > 0,
    ensures
        digest::is_digest(front + back) <==> digest::is_digest(front) && digest::is_digest(back)
            && front.len() + back.len() <= 128,
{
    let whole = front + back;
    assert forall|i: int| 0 <= i < front.len() implies #[trigger] front[i] == whole[i] by {}
    assert forall|i: int| 0 <= i < back.len() implies #[trigger] back[i] == whole[
        front.len() + i] by {}
}

/// A request can be used just where both of its digests are digests and it
/// carries at most 256 reports; nothing else in it matters.
pub proof fn law_request_is_valid_just_where(request: AgentCacheRoutingSignals)
    ensures
        request.valid() <==> digest::is_digest(request.namespace_digest@) && digest::is_digest(
            request.identity_digest@,
        ) && request.statuses@.len() <= 256,
{
}

// Reports.

/// A cost figure is accepted just where it is left out, is a finite number
/// without sign, or is negative zero.
pub proof fn law_figures_are_accepted_just_where(figure: Option<Binary64>)
    ensures
        inventory::acceptable(figure) <==> match figure {
            None => true,
            Some(v) => v.bits < 0x7ff0_0000_0000_0000 || v.bits == 0x8000_0000_0000_0000,
        },
{
    if let Some(v) = figure {
        rounding::lemma_value_at_least(v.magnitude());
    }
}

/// A report is trusted just where its digests are digests and are those of the
/// request, its figures are within bounds, it is not behind the expected epoch,
/// its time is within the time to live of the request's, before or after, and it
/// was a physical hit.
///
/// Of a report that is not, the reason is the first of these that fails; where
/// only the physical hit is missing, it is that the report is a plan, or else
/// the reason that the report itself gives.
pub proof fn law_report_is_trusted_just_where(
    status: AgentCacheStatus,
    request: AgentCacheRoutingSignals,
    ttl: u64,
)
    ensures
        ({
            let sound = {
                &&& digest::is_digest(status.namespace_digest@)
                &&& digest::is_digest(status.identity_digest@)
                &&& status.namespace_digest@ == request.namespace_digest@
                &&& status.identity_digest@ == request.identity_digest@
                &&& 1 <= status.reusable_tokens <= 4_000_000
                &&& status.estimated_bytes matches Some(b) ==> b <= 1_125_899_906_842_624
                &&& status.actual_bytes matches Some(b) ==> b <= 1_125_899_906_842_624
                &&& inventory::acceptable(status.lookup_cost_blocks)
                &&& inventory::acceptable(status.restore_cost_blocks)
                &&& inventory::acceptable(status.transfer_bytes_per_block_cost)
            };
            let current = status.epoch >= request.expected_epoch;
            let fresh = status.timestamp_ms <= request.now_ms + ttl && request.now_ms
                <= status.timestamp_ms + ttl;
            let verdict = status.verdict(request, ttl);
            &&& verdict is Ok <==> sound && current && fresh && status.physical_exact_hit
            &&& !sound ==> verdict == Err::<(), AgentCacheMissReason>(
                AgentCacheMissReason::InsufficientData,
            )
            &&& sound && !current ==> verdict == Err::<(), AgentCacheMissReason>(
                AgentCacheMissReason::EpochLag,
            )
            &&& sound && current && !fresh ==> verdict == Err::<(), AgentCacheMissReason>(
                AgentCacheMissReason::Stale,
            )
            &&& sound && current && fresh && !status.physical_exact_hit ==> verdict == Err::<
                (),
                AgentCacheMissReason,
            >(
                if status.planner_candidate {
                    AgentCacheMissReason::PlannerOnly
                } else {
                    status.miss_reason
                },
            )
        }),
{
}

/// A trusted report stays trusted in a later epoch, with a longer time to live,
/// for an earlier expected epoch, and whatever it says of its worker, its tier,
/// its lifecycle, its lease, a plan or a miss.
pub proof fn law_trust_is_kept(
    status: AgentCacheStatus,
    request: AgentCacheRoutingSignals,
    ttl: u64,
    other: AgentCacheStatus,
    asked: AgentCacheRoutingSignals,
    longer: u64,
)
    requires
        status.verdict(request, ttl) is Ok,
        ttl <= longer,
        status.epoch <= other.epoch,
        other == (AgentCacheStatus {
            worker: other.worker,
            tier: other.tier,
            epoch: other.epoch,
            planner_candidate: other.planner_candidate,
            lease_expires_at_ms: other.lease_expires_at_ms,
            lifecycle: other.lifecycle,
            miss_reason: other.miss_reason,
            ..status
        }),
        asked.expected_epoch <= request.expected_epoch,
        asked.namespace_digest@ == request.namespace_digest@,
        asked.identity_digest@ == request.identity_digest@,
        asked.now_ms == request.now_ms,
    ensures
        other.verdict(asked, longer) is Ok,
{
}

// Costs.

/// The risk of a lifecycle is nothing while the agent is active, or waits for a
/// tool under a lease that runs, half a block where it is unknown, one block
/// where it waits without a lease, one and a half where the agent has completed,
/// and two where it was cancelled.
pub proof fn law_risk_in_halves(status: AgentCacheStatus, now: u64)
    ensures
        !status.risk(now).negative(),
        2 * status.risk(now).units() == vstd::arithmetic::power2::pow2(1074) * (
        match status.lifecycle {
            AgentCacheLifecycle::Active => 0int,
            AgentCacheLifecycle::Unknown => 1int,
            AgentCacheLifecycle::ToolWaiting => match status.lease_expires_at_ms {
                Some(expiry) => if expiry > now {
                    0int
                } else {
                    2int
                },
                None => 2int,
            },
            AgentCacheLifecycle::Completed => 3int,
            AgentCacheLifecycle::Cancelled => 4int,
        }),
{
    binary64::law_constants();
    let one = vstd::arithmetic::power2::pow2(1074);
    assert(one * 0int == 0 && one * 1int == one && one * 2int == 2 * one && one * 3int == 3 * one
        && one * 4int == 4 * one);
}

/// One block is charged just where the report's lease runs on and the request
/// prefers another worker than the one that is asked for, and else nothing.
pub proof fn law_affinity_is_charged_just_where(
    status: AgentCacheStatus,
    request: AgentCacheRoutingSignals,
    worker: WorkerWithDpRank,
)
    ensures
        !status.affinity(request, worker).negative(),
        status.affinity(request, worker).units() == (if status.lease_expires_at_ms is Some
            && status.lease_expires_at_ms->0 > request.now_ms && request.soft_affinity_worker is Some
            && request.soft_affinity_worker->0 != worker {
            vstd::arithmetic::power2::pow2(1074) as int
        } else {
            0
        }),
{
    binary64::law_constants();
}

/// The saving is the number nearest to the tokens over the block size.
pub proof fn law_saving_is_nearest(status: AgentCacheStatus, block_size: u32, c: Binary64)
    requires
        block_size > 0,
        !c.nan(),
    ensures
        ({
            let count = if status.reusable_tokens < 0x20_0000_0000_0000 {
                status.reusable_tokens as nat
            } else {
                rounding::rounded(status.reusable_tokens as nat)
            };
            let exact = (count * vstd::arithmetic::power2::pow2(1074)) as int;
            let saved = status.saving(block_size);
            &&& saved.finite()
            &&& !saved.negative()
            &&& rounding::gap(saved.units() * block_size, exact) <= rounding::gap(
                c.units() * block_size,
                exact,
            )
            &&& saved.units() != c.units() && rounding::gap(saved.units() * block_size, exact)
                == rounding::gap(c.units() * block_size, exact) ==> saved.magnitude() % 2 == 0
        }),
{
    numbers::law_count_is_held(status.reusable_tokens as nat, 0, 0);
    numbers::law_quotient_is_nearest(
        rounding::rounded(status.reusable_tokens as nat),
        block_size as nat,
        c,
    );
    laws::lemma_saving_is_finite(status, block_size);
}

/// A cost holds the parts that it was made from, charges nothing for queue and
/// load, and comes to the charges, added up in order, less the saving.
pub proof fn law_cost_is_made_of_its_parts(
    action: CacheAction,
    saved: Binary64,
    lookup: Binary64,
    transfer: Binary64,
    restore: Binary64,
    risk: Binary64,
    affinity: Binary64,
)
    ensures
        ({
            let c = CacheActionCost::of(
                action,
                saved,
                lookup,
                transfer,
                restore,
                risk,
                affinity,
            );
            let fetched = lookup.plus(transfer);
            let charged = fetched.plus(restore).plus(risk).plus(affinity);
            &&& c.action == action
            &&& c.saved_prefill_blocks == saved
            &&& c.lookup_blocks == lookup
            &&& c.transfer_blocks == transfer
            &&& c.restore_blocks == restore
            &&& c.staleness_risk_blocks == risk
            &&& c.affinity_break_blocks == affinity
            &&& c.queue_blocks.bits == 0
            &&& c.load_imbalance_blocks.bits == 0
            &&& c.total_blocks == charged.plus(saved.negated())
        }),
{
}

/// Using a prefix where it lies is charged for risk and affinity alone, and
/// comes to the number nearest to these less the saving.
pub proof fn law_local_cost_is_nearest(
    status: AgentCacheStatus,
    request: AgentCacheRoutingSignals,
    block_size: u32,
    worker: WorkerWithDpRank,
    c: Binary64,
)
    requires
        block_size > 0,
        !c.nan(),
    ensures
        ({
            let here = status.local(block_size, request, worker);
            let exact = status.risk(request.now_ms).units() + status.affinity(
                request,
                worker,
            ).units() - status.saving(block_size).units();
            &&& here.action == CacheAction::LocalExactHit
            &&& here.saved_prefill_blocks == status.saving(block_size)
            &&& here.queue_blocks.bits == 0
            &&& here.lookup_blocks.bits == 0
            &&& here.transfer_blocks.bits == 0
            &&& here.restore_blocks.bits == 0
            &&& here.load_imbalance_blocks.bits == 0
            &&& here.staleness_risk_blocks == status.risk(request.now_ms)
            &&& here.affinity_break_blocks == status.affinity(request, worker)
            &&& !here.total_blocks.nan()
            &&& rounding::gap(here.total_blocks.units(), exact) <= rounding::gap(c.units(), exact)
            &&& here.total_blocks.units() != c.units() && rounding::gap(
                here.total_blocks.units(),
                exact,
            ) == rounding::gap(c.units(), exact) ==> here.total_blocks.magnitude() % 2 == 0
        }),
{
    let zero = Binary64::nought();
    let charged = zero.plus(status.risk(request.now_ms)).plus(status.affinity(request, worker));
    let saved = status.saving(block_size);
    laws::lemma_local_charge(status, request, worker);
    laws::lemma_saving_is_finite(status, block_size);
    assert(saved.negated().units() == -saved.units());
    numbers::law_sum_is_nearest(charged, saved.negated(), c);
}

/// An offer is made just where the prefix is not already on the device of the
/// worker that is asked for, the report gives a size, a rate, a lookup and a
/// restore cost, and the rate times the size is finite. The size is the measured
/// one wherever there is one, and the estimate only where there is none.
pub proof fn law_offer_is_made_of_the_report(
    status: AgentCacheStatus,
    request: AgentCacheRoutingSignals,
    block_size: u32,
    worker: WorkerWithDpRank,
)
    ensures
        ({
            let offer = status.remote(block_size, request, worker);
            let measured = status.actual_bytes;
            let estimated = status.estimated_bytes;
            let rate = status.transfer_bytes_per_block_cost;
            let elsewhere = status.worker.worker_id != worker.worker_id || status.worker.dp_rank
                != worker.dp_rank || status.tier != AgentCacheTier::Device;
            &&& measured is None && estimated is None ==> offer is None
            &&& forall|size: u64|
                measured == Some(size) || (measured is None && estimated == Some(size)) ==> {
                    let transfer = rate->0.times(#[trigger] rounding::rounded(size as nat));
                    &&& offer is Some <==> elsewhere && rate is Some
                        && status.lookup_cost_blocks is Some && status.restore_cost_blocks is Some
                        && transfer.finite()
                    &&& offer matches Some(c) ==> c.transfer_blocks == transfer
                }
            &&& offer matches Some(c) ==> {
                let fetched = c.lookup_blocks.plus(c.transfer_blocks);
                let charged = fetched.plus(c.restore_blocks).plus(c.staleness_risk_blocks).plus(
                    c.affinity_break_blocks,
                );
                &&& c.action == CacheAction::RemoteRestore
                &&& c.lookup_blocks == status.lookup_cost_blocks->0
                &&& c.restore_blocks == status.restore_cost_blocks->0
                &&& c.saved_prefill_blocks == status.saving(block_size)
                &&& c.staleness_risk_blocks == status.risk(request.now_ms).plus(
                    Binary64 { bits: 0x3fe0_0000_0000_0000 },
                )
                &&& c.affinity_break_blocks == status.affinity(request, worker)
                &&& c.queue_blocks.bits == 0
                &&& c.load_imbalance_blocks.bits == 0
                &&& c.total_blocks == charged.plus(c.saved_prefill_blocks.negated())
            }
        }),
{
}

/// Once a size is measured, the estimate does not matter; and where none is, an
/// estimate does what a measurement of the same size would.
pub proof fn law_measured_size_goes_before_the_estimate(
    status: AgentCacheStatus,
    other: AgentCacheStatus,
    request: AgentCacheRoutingSignals,
    block_size: u32,
    worker: WorkerWithDpRank,
)
    requires
        other == (AgentCacheStatus {
            actual_bytes: other.actual_bytes,
            estimated_bytes: other.estimated_bytes,
            ..status
        }),
        status.actual_bytes is Some,
        other.actual_bytes == status.actual_bytes || (other.actual_bytes is None
            && other.estimated_bytes == status.actual_bytes),
    ensures
        other.remote(block_size, request, worker) == status.remote(block_size, request, worker),
{
}

/// A greater size, rate, lookup or restore cost, all else equal, never makes an
/// offer cheaper, nor one where there was none.
pub proof fn law_dearer_figures_make_dearer_offers(
    status: AgentCacheStatus,
    dearer: AgentCacheStatus,
    request: AgentCacheRoutingSignals,
    block_size: u32,
    worker: WorkerWithDpRank,
)
    requires
        status.acceptable_figures(),
        dearer.acceptable_figures(),
        dearer == (AgentCacheStatus {
            actual_bytes: dearer.actual_bytes,
            lookup_cost_blocks: dearer.lookup_cost_blocks,
            restore_cost_blocks: dearer.restore_cost_blocks,
            transfer_bytes_per_block_cost: dearer.transfer_bytes_per_block_cost,
            ..status
        }),
        status.actual_bytes is Some && dearer.actual_bytes is Some,
        status.actual_bytes->0 <= dearer.actual_bytes->0,
        status.lookup_cost_blocks is Some && dearer.lookup_cost_blocks is Some,
        status.lookup_cost_blocks->0.units() <= dearer.lookup_cost_blocks->0.units(),
        status.restore_cost_blocks is Some && dearer.restore_cost_blocks is Some,
        status.restore_cost_blocks->0.units() <= dearer.restore_cost_blocks->0.units(),
        status.transfer_bytes_per_block_cost is Some,
        dearer.transfer_bytes_per_block_cost is Some,
        status.transfer_bytes_per_block_cost->0.units()
            <= dearer.transfer_bytes_per_block_cost->0.units(),
        dearer.remote(block_size, request, worker) is Some,
    ensures
        status.remote(block_size, request, worker) is Some,
        status.remote(block_size, request, worker)->0.total_blocks.units() <= dearer.remote(
            block_size,
            request,
            worker,
        )->0.total_blocks.units(),
{
    let rate = status.transfer_bytes_per_block_cost->0;
    let more = dearer.transfer_bytes_per_block_cost->0;
    let count = rounding::rounded(status.actual_bytes->0 as nat);
    let larger = rounding::rounded(dearer.actual_bytes->0 as nat);
    lemma_rounded_monotone(status.actual_bytes->0 as nat, dearer.actual_bytes->0 as nat);
    lemma_product_monotone(rate, more, count, larger);
    laws::lemma_dearer_parts(status, dearer, request, block_size, worker);
}

proof fn lemma_rounded_monotone(a: nat, b: nat)
    requires
        a <= b,
    ensures
        rounding::rounded(a) <= rounding::rounded(b),
{
    rounding::lemma_round_monotone(a, b, 1);
    if rounding::round(a, 1) < rounding::round(b, 1) {
        rounding::lemma_value_increases(rounding::round(a, 1), rounding::round(b, 1));
    }
}

proof fn lemma_product_monotone(a: Binary64, b: Binary64, i: nat, j: nat)
    requires
        a.finite(),
        b.finite(),
        0 <= a.units() <= b.units(),
        i <= j,
    ensures
        a.times(i).units() <= b.times(j).units(),
        b.times(j).finite() ==> a.times(i).finite(),
{
    let x = rounding::value(a.magnitude());
    let y = rounding::value(b.magnitude());
    binary64::lemma_product_not_negative(a, i);
    binary64::lemma_product_not_negative(b, j);
    assert(i * x <= j * y) by (nonlinear_arith)
        requires
            i <= j,
            x <= y,
    ;
    rounding::lemma_round_monotone(i * x, j * y, 1);
    let p = rounding::nearest(i * x, 1);
    let q = rounding::nearest(j * y, 1);
    rounding::lemma_value_at_least(p);
    rounding::lemma_value_at_least(q);
    if p < q {
        rounding::lemma_value_increases(p, q);
    }
}

// Decisions.

/// Whether a decision computes the prefix anew for the given reason: no tier, no
/// adjustment, no cost in any part.
pub open spec fn recomputes(
    decision: AgentCacheDecision,
    reason: AgentCacheMissReason,
) -> bool {
    &&& decision.action == CacheAction::Recompute
    &&& decision.tier == AgentCacheTier::Unknown
    &&& decision.score_adjustment.bits == 0
    &&& decision.fallback_reason == reason
    &&& decision.cost.action == CacheAction::Recompute
    &&& decision.cost.saved_prefill_blocks.bits == 0
    &&& decision.cost.queue_blocks.bits == 0
    &&& decision.cost.lookup_blocks.bits == 0
    &&& decision.cost.transfer_blocks.bits == 0
    &&& decision.cost.restore_blocks.bits == 0
    &&& decision.cost.load_imbalance_blocks.bits == 0
    &&& decision.cost.staleness_risk_blocks.bits == 0
    &&& decision.cost.affinity_break_blocks.bits == 0
    &&& decision.cost.total_blocks.bits == 0
}

/// Whether a decision is right for a candidate of the given cost and tier. The
/// candidate is taken just where its total is less than zero, be it ever so
/// little. The adjustment is then the total, or the negation of the greatest
/// adjustment where the total lies beyond that, or negative zero where the
/// greatest adjustment is not greater than zero.
pub open spec fn weighs(
    decision: AgentCacheDecision,
    cost: CacheActionCost,
    tier: AgentCacheTier,
    max: Binary64,
) -> bool {
    if cost.total_blocks.units() < 0 {
        &&& decision.action == cost.action
        &&& decision.tier == tier
        &&& decision.cost == cost
        &&& decision.fallback_reason == AgentCacheMissReason::NoMiss
        &&& if max.units() <= 0 {
            decision.score_adjustment.bits == 0x8000_0000_0000_0000
        } else if cost.total_blocks.units() < -max.units() {
            decision.score_adjustment.units() == -max.units()
        } else {
            decision.score_adjustment == cost.total_blocks
        }
    } else {
        recomputes(decision, AgentCacheMissReason::NoMiss)
    }
}

/// Computing a prefix anew is neutral, whatever the reason.
pub proof fn law_recomputing_is_neutral(reason: AgentCacheMissReason)
    ensures
        recomputes(AgentCacheDecision::recomputing(reason), reason),
{
}

/// A candidate is used just where it costs less than computing the prefix anew:
/// by however little, and whatever it is.
pub proof fn law_candidate_is_used_just_where_cheaper(
    cost: CacheActionCost,
    tier: AgentCacheTier,
    max: Binary64,
)
    requires
        !cost.total_blocks.nan(),
        max.finite(),
    ensures
        weighs(AgentCacheDecision::weighing(cost, tier, max), cost, tier, max),
{
    rounding::lemma_value_at_least(max.magnitude());
    assert(max.negated().units() == -max.units());
}

/// A cheaper candidate in the place of one that is used is used too, and is
/// credited no less.
pub proof fn law_cheaper_candidate_earns_no_less(
    cost: CacheActionCost,
    cheaper: CacheActionCost,
    tier: AgentCacheTier,
    other: AgentCacheTier,
    max: Binary64,
)
    requires
        !cost.total_blocks.nan(),
        !cheaper.total_blocks.nan(),
        max.finite(),
        cheaper.total_blocks.units() <= cost.total_blocks.units(),
    ensures
        AgentCacheDecision::weighing(cheaper, other, max).score_adjustment.units()
            <= AgentCacheDecision::weighing(cost, tier, max).score_adjustment.units(),
        cost.total_blocks.units() < 0 ==> AgentCacheDecision::weighing(cheaper, other, max).cost
            == cheaper,
{
    law_candidate_is_used_just_where_cheaper(cost, tier, max);
    law_candidate_is_used_just_where_cheaper(cheaper, other, max);
}

/// A request that cannot be used, a block size of zero, and a greatest
/// adjustment that is infinite or not a number lead to computing the prefix anew
/// for want of data.
pub proof fn law_unusable_input_recomputes(
    signals: AgentCacheRoutingSignals,
    worker: WorkerWithDpRank,
    block_size: u32,
    ttl: u64,
    max: Binary64,
    online: Seq<bool>,
    decision: AgentCacheDecision,
)
    requires
        signals.decides(worker, block_size, ttl, max, online, decision),
        !signals.valid() || block_size == 0 || !max.finite(),
    ensures
        recomputes(decision, AgentCacheMissReason::InsufficientData),
{
}

/// The first trusted report of an online worker that puts the prefix on the
/// device of the worker that is asked for settles the decision, whatever else it
/// says and whatever other reports there are. It is used where its risk and
/// affinity charges are less than its saving.
pub proof fn law_first_copy_on_the_device_decides(
    signals: AgentCacheRoutingSignals,
    worker: WorkerWithDpRank,
    block_size: u32,
    ttl: u64,
    max: Binary64,
    online: Seq<bool>,
    decision: AgentCacheDecision,
    k: int,
)
    requires
        signals.decides(worker, block_size, ttl, max, online, decision),
        signals.valid(),
        block_size > 0,
        max.finite(),
        0 <= k < signals.statuses@.len(),
        online[k],
        signals.statuses@[k].verdict(signals, ttl) is Ok,
        signals.statuses@[k].worker == worker,
        signals.statuses@[k].tier == AgentCacheTier::Device,
        forall|j: int|
            0 <= j < k ==> !(online[j] && (#[trigger] signals.statuses@[j]).verdict(
                signals,
                ttl,
            ) is Ok && signals.statuses@[j].worker == worker && signals.statuses@[j].tier
                == AgentCacheTier::Device),
    ensures
        ({
            let status = signals.statuses@[k];
            let here = status.local(block_size, signals, worker);
            &&& weighs(decision, here, AgentCacheTier::Device, max)
            &&& status.risk(signals.now_ms).units() + status.affinity(signals, worker).units()
                < status.saving(block_size).units() ==> {
                &&& decision.action == CacheAction::LocalExactHit
                &&& decision.tier == AgentCacheTier::Device
                &&& decision.cost == here
            }
        }),
{
    let status = signals.statuses@[k];
    let here = status.local(block_size, signals, worker);
    assert(signals.first_local_hit(worker, ttl, online, k));
    law_local_cost_is_nearest(status, signals, block_size, worker, Binary64::nought());
    law_candidate_is_used_just_where_cheaper(here, status.tier, max);
    laws::law_local_hit_worth_using(status, signals, block_size, worker);
}

/// Where no trusted report of an online worker puts the prefix on the device of
/// the worker that is asked for, the cheapest offer of such reports settles the
/// decision, and of equally cheap ones the first.
pub proof fn law_cheapest_offer_decides(
    signals: AgentCacheRoutingSignals,
    worker: WorkerWithDpRank,
    block_size: u32,
    ttl: u64,
    max: Binary64,
    online: Seq<bool>,
    decision: AgentCacheDecision,
    k: int,
)
    requires
        signals.decides(worker, block_size, ttl, max, online, decision),
        signals.valid(),
        block_size > 0,
        max.finite(),
        forall|j: int|
            0 <= j < signals.statuses@.len() ==> !(online[j] && (
            #[trigger] signals.statuses@[j]).verdict(signals, ttl) is Ok
                && signals.statuses@[j].worker == worker && signals.statuses@[j].tier
                == AgentCacheTier::Device),
        0 <= k < signals.statuses@.len(),
        online[k],
        signals.statuses@[k].verdict(signals, ttl) is Ok,
        signals.statuses@[k].remote(block_size, signals, worker) is Some,
        forall|j: int|
            0 <= j < signals.statuses@.len() && online[j] && (
            #[trigger] signals.statuses@[j]).verdict(signals, ttl) is Ok
                && signals.statuses@[j].remote(block_size, signals, worker) is Some ==> {
                let this = signals.statuses@[k].remote(block_size, signals, worker)->0.total_blocks;
                let that = signals.statuses@[j].remote(block_size, signals, worker)->0.total_blocks;
                if j < k {
                    this.units() < that.units()
                } else {
                    this.units() <= that.units()
                }
            },
    ensures
        weighs(
            decision,
            signals.statuses@[k].remote(block_size, signals, worker)->0,
            signals.statuses@[k].tier,
            max,
        ),
        decision.action != CacheAction::LocalExactHit,
{
    let offered = signals.statuses@[k].remote(block_size, signals, worker)->0;
    assert(signals.no_local_hit(worker, ttl, online)) by {
        assert forall|j: int| !signals.local_hit(worker, ttl, online, j) by {
            if 0 <= j < signals.statuses@.len() {
                let status = signals.statuses@[j];
            }
        }
    }
    laws::lemma_offer_is_number(signals, worker, block_size, ttl, online, k);
    assert forall|j: int|
        (#[trigger] signals.offer(worker, block_size, ttl, online, j)) is Some && j != k implies ({
        let this = signals.offer(worker, block_size, ttl, online, k)->0.total_blocks;
        let that = signals.offer(worker, block_size, ttl, online, j)->0.total_blocks;
        if j < k {
            this.below(that)
        } else {
            !that.below(this)
        }
    }) by {
        let status = signals.statuses@[j];
        laws::lemma_offer_is_number(signals, worker, block_size, ttl, online, j);
    }
    assert(signals.best_offer(worker, block_size, ttl, online, k));
    law_candidate_is_used_just_where_cheaper(offered, signals.statuses@[k].tier, max);
}

/// Where no trusted report of an online worker puts the prefix on the device of
/// the worker that is asked for, a prefix is restored just where some such
/// report makes an offer that costs less than computing it anew, and else it is
/// computed anew.
pub proof fn law_restores_just_where_some_offer_is_cheaper(
    signals: AgentCacheRoutingSignals,
    worker: WorkerWithDpRank,
    block_size: u32,
    ttl: u64,
    max: Binary64,
    online: Seq<bool>,
    decision: AgentCacheDecision,
)
    requires
        signals.decides(worker, block_size, ttl, max, online, decision),
        signals.valid(),
        block_size > 0,
        max.finite(),
        forall|j: int|
            0 <= j < signals.statuses@.len() ==> !(online[j] && (
            #[trigger] signals.statuses@[j]).verdict(signals, ttl) is Ok
                && signals.statuses@[j].worker == worker && signals.statuses@[j].tier
                == AgentCacheTier::Device),
    ensures
        decision.action == CacheAction::RemoteRestore <==> exists|j: int|
            0 <= j < signals.statuses@.len() && online[j] && (
            #[trigger] signals.statuses@[j]).verdict(signals, ttl) is Ok
                && signals.statuses@[j].remote(block_size, signals, worker) is Some
                && signals.statuses@[j].remote(
                block_size,
                signals,
                worker,
            )->0.total_blocks.units() < 0,
        decision.action != CacheAction::RemoteRestore ==> recomputes(
            decision,
            decision.fallback_reason,
        ),
{
    assert(signals.no_local_hit(worker, ttl, online)) by {
        assert forall|j: int| !signals.local_hit(worker, ttl, online, j) by {
            if 0 <= j < signals.statuses@.len() {
                let status = signals.statuses@[j];
            }
        }
    }
    laws::law_some_case_applies(signals, worker, block_size, ttl, online);
    if exists|k: int| signals.best_offer(worker, block_size, ttl, online, k) {
        let k = choose|k: int| signals.best_offer(worker, block_size, ttl, online, k);
        let status = signals.statuses@[k];
        let offered = status.remote(block_size, signals, worker)->0;
        laws::lemma_offer_is_number(signals, worker, block_size, ttl, online, k);
        law_candidate_is_used_just_where_cheaper(offered, status.tier, max);
        assert forall|j: int|
            0 <= j < signals.statuses@.len() && online[j] && (
            #[trigger] signals.statuses@[j]).verdict(signals, ttl) is Ok
                && signals.statuses@[j].remote(
                block_size,
                signals,
                worker,
            ) is Some implies offered.total_blocks.units() <= signals.statuses@[j].remote(
            block_size,
            signals,
            worker,
        )->0.total_blocks.units() by {
            laws::lemma_offer_is_number(signals, worker, block_size, ttl, online, j);
            assert(signals.offer(worker, block_size, ttl, online, j) is Some);
        }
    } else {
        assert(signals.no_offer(worker, block_size, ttl, online));
        assert forall|j: int|
            0 <= j < signals.statuses@.len() && online[j] && (
            #[trigger] signals.statuses@[j]).verdict(
                signals,
                ttl,
            ) is Ok implies signals.statuses@[j].remote(
            block_size,
            signals,
            worker,
        ) is None by {
            assert(signals.offer(worker, block_size, ttl, online, j) is None);
        }
    }
}

/// Where no trusted report of an online worker can be used or makes an offer, the
/// prefix is computed anew, and the reason is that of the last report that was
/// offline or not trusted, or want of data where every report is trusted.
pub proof fn law_last_failure_is_the_reason(
    signals: AgentCacheRoutingSignals,
    worker: WorkerWithDpRank,
    block_size: u32,
    ttl: u64,
    max: Binary64,
    online: Seq<bool>,
    decision: AgentCacheDecision,
    k: int,
)
    requires
        signals.decides(worker, block_size, ttl, max, online, decision),
        signals.valid(),
        block_size > 0,
        max.finite(),
        forall|j: int|
            0 <= j < signals.statuses@.len() && online[j] && (
            #[trigger] signals.statuses@[j]).verdict(signals, ttl) is Ok
                ==> signals.statuses@[j].remote(block_size, signals, worker) is None && !(
            signals.statuses@[j].worker == worker && signals.statuses@[j].tier
                == AgentCacheTier::Device),
        -1 <= k < signals.statuses@.len(),
        k >= 0 ==> !online[k] || signals.statuses@[k].verdict(signals, ttl) is Err,
        forall|j: int|
            k < j < signals.statuses@.len() ==> online[j] && (
            #[trigger] signals.statuses@[j]).verdict(signals, ttl) is Ok,
    ensures
        recomputes(
            decision,
            if k < 0 {
                AgentCacheMissReason::InsufficientData
            } else if !online[k] {
                AgentCacheMissReason::WorkerOffline
            } else {
                signals.statuses@[k].verdict(signals, ttl)->Err_0
            },
        ),
{
    assert(signals.no_local_hit(worker, ttl, online)) by {
        assert forall|j: int| !signals.local_hit(worker, ttl, online, j) by {
            if 0 <= j < signals.statuses@.len() {
                let status = signals.statuses@[j];
            }
        }
    }
    assert(signals.no_offer(worker, block_size, ttl, online)) by {
        assert forall|j: int|
            (#[trigger] signals.offer(worker, block_size, ttl, online, j)) is None by {
            if 0 <= j < signals.statuses@.len() {
                let status = signals.statuses@[j];
            }
        }
    }
    assert forall|j: int| k < j < signals.statuses@.len() implies (#[trigger] signals.rejection(
        ttl,
        online,
        j,
    )) is None by {
        let status = signals.statuses@[j];
    }
    if k >= 0 {
        assert(signals.last_rejection(ttl, online, k));
    } else {
        assert(signals.no_rejection(ttl, online));
    }
}

// Liveness.

/// A predicate on workers answers for each report by the worker that it names.
pub proof fn law_predicate_answers_for_each_report(
    signals: AgentCacheRoutingSignals,
    up: spec_fn(WorkerWithDpRank) -> bool,
    i: int,
)
    ensures
        signals.liveness(up).len() == signals.statuses@.len(),
        0 <= i < signals.statuses@.len() ==> signals.liveness(up)[i] == up(
            signals.statuses@[i].worker,
        ),
{
}

/// Up to and with the first trusted report of an online worker that puts the
/// prefix on the device of the worker that is asked for, each answer is one that
/// the function gave for that report's worker.
pub proof fn law_answers_are_the_functions<F: Fn(WorkerWithDpRank) -> bool>(
    signals: AgentCacheRoutingSignals,
    worker: WorkerWithDpRank,
    ttl: u64,
    is_online: F,
    online: Seq<bool>,
    i: int,
)
    requires
        signals.answers(worker, ttl, is_online, online),
        0 <= i < signals.statuses@.len(),
        forall|j: int|
            0 <= j < i ==> !(online[j] && (#[trigger] signals.statuses@[j]).verdict(
                signals,
                ttl,
            ) is Ok && signals.statuses@[j].worker == worker && signals.statuses@[j].tier
                == AgentCacheTier::Device),
    ensures
        online.len() == signals.statuses@.len(),
        call_ensures(is_online, (signals.statuses@[i].worker,), online[i]),
{
    assert forall|j: int| 0 <= j < i implies !signals.local_hit(worker, ttl, online, j) by {
        let status = signals.statuses@[j];
    }
    let answer = online[i];
}

// Equality.

/// Two costs are equal just where their actions are and each of their numbers
/// is.
pub proof fn law_costs_are_equal_just_where(a: CacheActionCost, b: CacheActionCost)
    ensures
        a.same(b) <==> {
            &&& a.action == b.action
            &&& a.saved_prefill_blocks.same(b.saved_prefill_blocks)
            &&& a.queue_blocks.same(b.queue_blocks)
            &&& a.lookup_blocks.same(b.lookup_blocks)
            &&& a.transfer_blocks.same(b.transfer_blocks)
            &&& a.restore_blocks.same(b.restore_blocks)
            &&& a.load_imbalance_blocks.same(b.load_imbalance_blocks)
            &&& a.staleness_risk_blocks.same(b.staleness_risk_blocks)
            &&& a.affinity_break_blocks.same(b.affinity_break_blocks)
            &&& a.total_blocks.same(b.total_blocks)
        },
{
}

/// Two decisions are equal just where each of their parts is.
pub proof fn law_decisions_are_equal_just_where(a: AgentCacheDecision, b: AgentCacheDecision)
    ensures
        vstd::std_specs::cmp::PartialEqSpec::eq_spec(&a, &b) <==> {
            &&& a.action == b.action
            &&& a.tier == b.tier
            &&& a.score_adjustment.same(b.score_adjustment)
            &&& a.cost.same(b.cost)
            &&& a.fallback_reason == b.fallback_reason
        },
{
}

} // verus!
