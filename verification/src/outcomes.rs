//! What the library's calls return, in terms of what they were given.

use vstd::prelude::*;

use crate::binary64::Binary64;
use crate::cost::{CacheAction, CacheActionCost};
use crate::decision::AgentCacheDecision;
use crate::digest;
use crate::inventory;
use crate::inventory::{
    AgentCacheMissReason, AgentCacheRoutingSignals, AgentCacheStatus, AgentCacheTier,
    WorkerWithDpRank,
};
use crate::laws;
use crate::numbers;
use crate::promises;
use crate::rounding;

verus! {

/// A text is accepted as a digest just where it has 1 to 128 characters and each
/// is a letter, a digit, a hyphen or an underscore of ASCII.
pub proof fn law_valid_digest(text: &str, valid: bool)
    requires
        call_ensures(digest::valid_digest, (text,), valid),
    ensures
        valid <==> 1 <= text@.len() <= 128 && forall|i: int|
            0 <= i < text@.len() ==> {
                let code = (#[trigger] text@[i]) as int;
                48 <= code <= 57 || 65 <= code <= 90 || 97 <= code <= 122 || code == 45 || code
                    == 95
            },
{
    if valid {
        assert forall|i: int| 0 <= i < text@.len() implies ({
            let code = (#[trigger] text@[i]) as int;
            48 <= code <= 57 || 65 <= code <= 90 || 97 <= code <= 122 || code == 45 || code == 95
        }) by {
            assert(digest::digest_char(text@[i]));
        }
    } else if 1 <= text@.len() <= 128 {
        let i = choose|i: int|
            0 <= i < text@.len() && !digest::digest_char(#[trigger] text@[i]);
        let code = text@[i] as int;
    }
}

/// A request is valid just where both of its digests are accepted and it carries
/// at most 256 reports.
pub proof fn law_is_valid(
    request: AgentCacheRoutingSignals,
    namespace: &str,
    identity: &str,
    namespace_valid: bool,
    identity_valid: bool,
    valid: bool,
)
    requires
        namespace@ == request.namespace_digest@,
        identity@ == request.identity_digest@,
        call_ensures(digest::valid_digest, (namespace,), namespace_valid),
        call_ensures(digest::valid_digest, (identity,), identity_valid),
        call_ensures(AgentCacheRoutingSignals::is_valid, (&request,), valid),
    ensures
        valid <==> namespace_valid && identity_valid && request.statuses@.len() <= 256,
{
}

/// A cost figure is accepted just where it is left out, is a finite number
/// without sign, or is negative zero.
pub proof fn law_finite_non_negative(figure: Option<Binary64>, accepted: bool)
    requires
        call_ensures(inventory::finite_non_negative, (figure,), accepted),
    ensures
        accepted <==> match figure {
            None => true,
            Some(v) => v.bits < 0x7ff0_0000_0000_0000 || v.bits == 0x8000_0000_0000_0000,
        },
{
    promises::law_figures_are_accepted_just_where(figure);
}

/// A report is found trusted just where it is of what the request asks for,
/// within bounds, not behind the expected epoch, within the time to live on
/// either side, and a physical hit.
pub proof fn law_validate_for(
    status: AgentCacheStatus,
    request: AgentCacheRoutingSignals,
    ttl: u64,
    found: Result<(), AgentCacheMissReason>,
)
    requires
        call_ensures(AgentCacheStatus::validate_for, (&status, &request, ttl), found),
    ensures
        found is Ok <==> {
            &&& digest::is_digest(status.namespace_digest@)
            &&& digest::is_digest(status.identity_digest@)
            &&& status.namespace_digest@ == request.namespace_digest@
            &&& status.identity_digest@ == request.identity_digest@
            &&& 1 <= status.reusable_tokens <= 4_000_000
            &&& status.estimated_bytes is Some ==> status.estimated_bytes->0
                <= 1_125_899_906_842_624
            &&& status.actual_bytes is Some ==> status.actual_bytes->0 <= 1_125_899_906_842_624
            &&& inventory::acceptable(status.lookup_cost_blocks)
            &&& inventory::acceptable(status.restore_cost_blocks)
            &&& inventory::acceptable(status.transfer_bytes_per_block_cost)
            &&& status.epoch >= request.expected_epoch
            &&& status.timestamp_ms <= request.now_ms + ttl
            &&& request.now_ms <= status.timestamp_ms + ttl
            &&& status.physical_exact_hit
        },
        found == status.verdict(request, ttl),
{
    promises::law_report_is_trusted_just_where(status, request, ttl);
}

/// A report that is found trusted is found trusted again when its epoch is
/// raised, whatever it is raised to.
pub proof fn law_raised_epoch_is_still_trusted(
    status: AgentCacheStatus,
    raised: AgentCacheStatus,
    request: AgentCacheRoutingSignals,
    ttl: u64,
    found: Result<(), AgentCacheMissReason>,
    again: Result<(), AgentCacheMissReason>,
)
    requires
        raised == (AgentCacheStatus { epoch: raised.epoch, ..status }),
        status.epoch <= raised.epoch,
        call_ensures(AgentCacheStatus::validate_for, (&status, &request, ttl), found),
        call_ensures(AgentCacheStatus::validate_for, (&raised, &request, ttl), again),
        found is Ok,
    ensures
        again is Ok,
{
    promises::law_trust_is_kept(status, request, ttl, raised, request, ttl);
}

/// The charges for risk and affinity are those of the report and the request.
pub proof fn law_charges(
    status: AgentCacheStatus,
    request: AgentCacheRoutingSignals,
    worker: WorkerWithDpRank,
    risk: Binary64,
    affinity: Binary64,
)
    requires
        call_ensures(AgentCacheStatus::lifecycle_risk, (&status, request.now_ms), risk),
        call_ensures(AgentCacheStatus::affinity_break, (&status, &request, worker), affinity),
    ensures
        risk == status.risk(request.now_ms),
        affinity == status.affinity(request, worker),
{
}

/// Using a prefix where it lies is priced as its report says, at the number
/// nearest to risk and affinity less the saving.
pub(crate) proof fn law_local_cost(
    status: AgentCacheStatus,
    request: AgentCacheRoutingSignals,
    block_size: u32,
    worker: WorkerWithDpRank,
    cost: CacheActionCost,
    c: Binary64,
)
    requires
        block_size > 0,
        !c.nan(),
        call_ensures(AgentCacheStatus::local_cost, (&status, block_size, &request, worker), cost),
    ensures
        cost == status.local(block_size, request, worker),
        cost.action == CacheAction::LocalExactHit,
        ({
            let exact = cost.staleness_risk_blocks.units() + cost.affinity_break_blocks.units()
                - cost.saved_prefill_blocks.units();
            rounding::gap(cost.total_blocks.units(), exact) <= rounding::gap(c.units(), exact)
        }),
{
    promises::law_local_cost_is_nearest(status, request, block_size, worker, c);
}

/// Where a size is measured, a restore is charged the rate times that size;
/// where none is, it is charged the rate times the estimate.
pub(crate) proof fn law_remote_cost(
    status: AgentCacheStatus,
    request: AgentCacheRoutingSignals,
    block_size: u32,
    worker: WorkerWithDpRank,
    offer: Option<CacheActionCost>,
)
    requires
        call_ensures(AgentCacheStatus::remote_cost, (&status, block_size, &request, worker), offer),
    ensures
        offer == status.remote(block_size, request, worker),
        offer is Some && status.actual_bytes is Some ==> offer->0.transfer_blocks
            == status.transfer_bytes_per_block_cost->0.times(
            rounding::rounded(status.actual_bytes->0 as nat),
        ),
        offer is Some && status.actual_bytes is None ==> offer->0.transfer_blocks
            == status.transfer_bytes_per_block_cost->0.times(
            rounding::rounded(status.estimated_bytes->0 as nat),
        ),
{
}

/// Reports with the same measured size get the same price for a restore,
/// whatever their estimates.
pub(crate) proof fn law_estimate_does_not_change_the_price(
    status: AgentCacheStatus,
    other: AgentCacheStatus,
    request: AgentCacheRoutingSignals,
    block_size: u32,
    worker: WorkerWithDpRank,
    one_offer: Option<CacheActionCost>,
    other_offer: Option<CacheActionCost>,
)
    requires
        status.actual_bytes is Some,
        other == (AgentCacheStatus { estimated_bytes: other.estimated_bytes, ..status }),
        call_ensures(
            AgentCacheStatus::remote_cost,
            (&status, block_size, &request, worker),
            one_offer,
        ),
        call_ensures(
            AgentCacheStatus::remote_cost,
            (&other, block_size, &request, worker),
            other_offer,
        ),
    ensures
        one_offer == other_offer,
{
    promises::law_measured_size_goes_before_the_estimate(
        status,
        other,
        request,
        block_size,
        worker,
    );
}

/// A cost comes to its charges, added up in order, less its saving, and keeps
/// each part.
pub(crate) proof fn law_new_cost(
    action: CacheAction,
    saved: Binary64,
    lookup: Binary64,
    transfer: Binary64,
    restore: Binary64,
    risk: Binary64,
    affinity: Binary64,
    c: CacheActionCost,
)
    requires
        call_ensures(
            CacheActionCost::new,
            (action, saved, lookup, transfer, restore, risk, affinity),
            c,
        ),
    ensures
        c.action == action,
        c.saved_prefill_blocks == saved,
        c.lookup_blocks == lookup,
        c.transfer_blocks == transfer,
        c.restore_blocks == restore,
        c.staleness_risk_blocks == risk,
        c.affinity_break_blocks == affinity,
        c.queue_blocks.bits == 0,
        c.load_imbalance_blocks.bits == 0,
        c.total_blocks == lookup.plus(transfer).plus(restore).plus(risk).plus(affinity).plus(
            saved.negated(),
        ),
{
    promises::law_cost_is_made_of_its_parts(
        action,
        saved,
        lookup,
        transfer,
        restore,
        risk,
        affinity,
    );
}

/// Falling back on the cost of computing anew is neutral, for every reason.
pub proof fn law_fallback(
    cost: CacheActionCost,
    reason: AgentCacheMissReason,
    decision: AgentCacheDecision,
)
    requires
        call_ensures(CacheActionCost::recompute, (), cost),
        call_ensures(AgentCacheDecision::fallback, (cost, reason), decision),
    ensures
        promises::recomputes(decision, reason),
{
}

/// A candidate is taken just where its total is less than zero.
pub(crate) proof fn law_weigh(
    cost: CacheActionCost,
    tier: AgentCacheTier,
    max: Binary64,
    decision: AgentCacheDecision,
)
    requires
        !cost.total_blocks.nan(),
        max.finite(),
        call_ensures(AgentCacheDecision::weigh, (cost, tier, max), decision),
    ensures
        promises::weighs(decision, cost, tier, max),
        cost.total_blocks.units() < 0 <==> decision == (AgentCacheDecision {
            action: cost.action,
            tier,
            score_adjustment: decision.score_adjustment,
            cost,
            fallback_reason: AgentCacheMissReason::NoMiss,
        }) && decision.cost.total_blocks.units() < 0,
{
    promises::law_candidate_is_used_just_where_cheaper(cost, tier, max);
}

/// A decision goes by what a predicate says of the worker of each report.
pub proof fn law_decision_goes_by_the_predicate<F: Fn(WorkerWithDpRank) -> bool>(
    signals: AgentCacheRoutingSignals,
    worker: WorkerWithDpRank,
    block_size: u32,
    ttl: u64,
    max: Binary64,
    is_online: F,
    up: spec_fn(WorkerWithDpRank) -> bool,
    decision: AgentCacheDecision,
)
    requires
        forall|w: WorkerWithDpRank, answer: bool| #[trigger]
            call_ensures(is_online, (w,), answer) ==> answer == up(w),
        call_ensures(
            AgentCacheRoutingSignals::decision_for_online::<F>,
            (&signals, worker, block_size, ttl, max, is_online),
            decision,
        ),
    ensures
        signals.decides(
            worker,
            block_size,
            ttl,
            max,
            Seq::new(signals.statuses@.len(), |i: int| up(signals.statuses@[i].worker)),
            decision,
        ),
{
    let online = Seq::new(signals.statuses@.len(), |i: int| up(signals.statuses@[i].worker));
    if signals.usable(block_size, max) {
        signals.law_liveness_predicate(worker, block_size, ttl, max, is_online, up, decision);
    }
    assert(signals.liveness(up) =~= online);
}

/// A request that is not valid, a block size of zero and a greatest adjustment
/// that is no finite number lead to computing the prefix anew.
pub proof fn law_decision_on_unusable_input<F: Fn(WorkerWithDpRank) -> bool>(
    signals: AgentCacheRoutingSignals,
    worker: WorkerWithDpRank,
    block_size: u32,
    ttl: u64,
    max: Binary64,
    is_online: F,
    valid: bool,
    decision: AgentCacheDecision,
)
    requires
        call_ensures(AgentCacheRoutingSignals::is_valid, (&signals,), valid),
        call_ensures(
            AgentCacheRoutingSignals::decision_for_online::<F>,
            (&signals, worker, block_size, ttl, max, is_online),
            decision,
        ),
        !valid || block_size == 0 || 0x7ff0_0000_0000_0000 <= max.bits < 0x8000_0000_0000_0000
            || 0xfff0_0000_0000_0000 <= max.bits,
    ensures
        promises::recomputes(decision, AgentCacheMissReason::InsufficientData),
{
}

/// The first trusted report of an online worker that puts the prefix on the
/// device of the worker that is asked for settles the decision, whatever else it
/// says.
pub proof fn law_decision_rests_on_the_first_copy_on_the_device<
    F: Fn(WorkerWithDpRank) -> bool,
>(
    signals: AgentCacheRoutingSignals,
    worker: WorkerWithDpRank,
    block_size: u32,
    ttl: u64,
    max: Binary64,
    is_online: F,
    up: spec_fn(WorkerWithDpRank) -> bool,
    decision: AgentCacheDecision,
    k: int,
)
    requires
        forall|w: WorkerWithDpRank, answer: bool| #[trigger]
            call_ensures(is_online, (w,), answer) ==> answer == up(w),
        call_ensures(
            AgentCacheRoutingSignals::decision_for_online::<F>,
            (&signals, worker, block_size, ttl, max, is_online),
            decision,
        ),
        signals.valid(),
        block_size > 0,
        max.finite(),
        up(worker),
        0 <= k < signals.statuses@.len(),
        signals.statuses@[k].verdict(signals, ttl) is Ok,
        signals.statuses@[k].worker == worker,
        signals.statuses@[k].tier == AgentCacheTier::Device,
        forall|j: int|
            0 <= j < k ==> !((#[trigger] signals.statuses@[j]).verdict(signals, ttl) is Ok
                && signals.statuses@[j].worker == worker && signals.statuses@[j].tier
                == AgentCacheTier::Device),
    ensures
        ({
            let status = signals.statuses@[k];
            let here = status.local(block_size, signals, worker);
            &&& promises::weighs(decision, here, AgentCacheTier::Device, max)
            &&& status.risk(signals.now_ms).units() + status.affinity(signals, worker).units()
                < status.saving(block_size).units() ==> {
                &&& decision.action == CacheAction::LocalExactHit
                &&& decision.tier == AgentCacheTier::Device
                &&& decision.cost == here
            }
        }),
{
    let online = Seq::new(signals.statuses@.len(), |i: int| up(signals.statuses@[i].worker));
    law_decision_goes_by_the_predicate(
        signals,
        worker,
        block_size,
        ttl,
        max,
        is_online,
        up,
        decision,
    );
    promises::law_first_copy_on_the_device_decides(
        signals,
        worker,
        block_size,
        ttl,
        max,
        online,
        decision,
        k,
    );
}

/// Without a trusted copy on the device of the worker that is asked for, a prefix
/// is restored just where some trusted report of an online worker makes an offer
/// that costs less than computing it anew.
pub proof fn law_decision_restores_just_where_cheaper<F: Fn(WorkerWithDpRank) -> bool>(
    signals: AgentCacheRoutingSignals,
    worker: WorkerWithDpRank,
    block_size: u32,
    ttl: u64,
    max: Binary64,
    is_online: F,
    up: spec_fn(WorkerWithDpRank) -> bool,
    decision: AgentCacheDecision,
)
    requires
        forall|w: WorkerWithDpRank, answer: bool| #[trigger]
            call_ensures(is_online, (w,), answer) ==> answer == up(w),
        call_ensures(
            AgentCacheRoutingSignals::decision_for_online::<F>,
            (&signals, worker, block_size, ttl, max, is_online),
            decision,
        ),
        signals.valid(),
        block_size > 0,
        max.finite(),
        forall|j: int|
            0 <= j < signals.statuses@.len() ==> !(up(worker) && (
            #[trigger] signals.statuses@[j]).verdict(signals, ttl) is Ok
                && signals.statuses@[j].worker == worker && signals.statuses@[j].tier
                == AgentCacheTier::Device),
    ensures
        decision.action == CacheAction::RemoteRestore <==> exists|j: int|
            0 <= j < signals.statuses@.len() && up((#[trigger] signals.statuses@[j]).worker)
                && signals.statuses@[j].verdict(signals, ttl) is Ok && signals.statuses@[j].remote(
                block_size,
                signals,
                worker,
            ) is Some && signals.statuses@[j].remote(
                block_size,
                signals,
                worker,
            )->0.total_blocks.units() < 0,
        decision.action != CacheAction::RemoteRestore ==> promises::recomputes(
            decision,
            decision.fallback_reason,
        ),
{
    let online = Seq::new(signals.statuses@.len(), |i: int| up(signals.statuses@[i].worker));
    law_decision_goes_by_the_predicate(
        signals,
        worker,
        block_size,
        ttl,
        max,
        is_online,
        up,
        decision,
    );
    promises::law_restores_just_where_some_offer_is_cheaper(
        signals,
        worker,
        block_size,
        ttl,
        max,
        online,
        decision,
    );
}

/// Decisions without a liveness check are those with one that every worker
/// passes.
pub proof fn law_decision_for_takes_all_workers_as_online<F: Fn(WorkerWithDpRank) -> bool>(
    signals: AgentCacheRoutingSignals,
    worker: WorkerWithDpRank,
    block_size: u32,
    ttl: u64,
    max: Binary64,
    is_online: F,
    one: AgentCacheDecision,
    other: AgentCacheDecision,
)
    requires
        forall|w: WorkerWithDpRank, answer: bool| #[trigger]
            call_ensures(is_online, (w,), answer) ==> answer,
        call_ensures(
            AgentCacheRoutingSignals::decision_for,
            (&signals, worker, block_size, ttl, max),
            one,
        ),
        call_ensures(
            AgentCacheRoutingSignals::decision_for_online::<F>,
            (&signals, worker, block_size, ttl, max, is_online),
            other,
        ),
    ensures
        one == other,
{
    let up = |w: WorkerWithDpRank| true;
    if signals.usable(block_size, max) {
        signals.law_liveness_predicate(worker, block_size, ttl, max, is_online, up, other);
    }
    laws::law_one_decision(signals, worker, block_size, ttl, max, signals.liveness(up), one, other);
}

/// Sums, products and quotients are the numbers nearest to the exact ones.
pub proof fn law_arithmetic_is_nearest(
    a: Binary64,
    b: Binary64,
    count: u64,
    divisor: u32,
    sum: Binary64,
    product: Binary64,
    quotient: Binary64,
    c: Binary64,
)
    requires
        a.finite(),
        b.finite(),
        divisor > 0,
        !c.nan(),
        call_ensures(Binary64::sum, (a, b), sum),
        call_ensures(Binary64::product, (a, count), product),
        call_ensures(Binary64::quotient, (count, divisor), quotient),
    ensures
        rounding::gap(sum.units(), a.units() + b.units()) <= rounding::gap(
            c.units(),
            a.units() + b.units(),
        ),
        rounding::gap(product.units(), a.units() * rounding::rounded(count as nat))
            <= rounding::gap(c.units(), a.units() * rounding::rounded(count as nat)),
        ({
            let exact = (rounding::rounded(count as nat) * vstd::arithmetic::power2::pow2(
                1074,
            )) as int;
            rounding::gap(quotient.units() * divisor, exact) <= rounding::gap(
                c.units() * divisor,
                exact,
            )
        }),
{
    numbers::law_sum_is_nearest(a, b, c);
    numbers::law_product_is_nearest(a, rounding::rounded(count as nat), c);
    numbers::law_quotient_is_nearest(rounding::rounded(count as nat), divisor as nat, c);
}

/// Comparison goes by size, and negation turns the sign alone.
pub proof fn law_comparison_and_negation(
    a: Binary64,
    b: Binary64,
    less: bool,
    finite: bool,
    accepted: bool,
    turned: Binary64,
)
    requires
        call_ensures(Binary64::is_less, (a, b), less),
        call_ensures(Binary64::is_finite, (a,), finite),
        call_ensures(Binary64::is_finite_non_negative, (a,), accepted),
        call_ensures(Binary64::negation, (a,), turned),
    ensures
        less <==> !a.nan() && !b.nan() && a.units() < b.units(),
        finite <==> a.bits < 0x7ff0_0000_0000_0000 || 0x8000_0000_0000_0000 <= a.bits
            < 0xfff0_0000_0000_0000,
        accepted <==> a.bits < 0x7ff0_0000_0000_0000 || a.bits == 0x8000_0000_0000_0000,
        turned.bits != a.bits,
        turned.magnitude() == a.magnitude(),
        turned.units() == -a.units(),
{
    promises::law_figures_are_accepted_just_where(Some(a));
}

} // verus!
