//! What holds of every decision.

use vstd::prelude::*;

use crate::binary64;
use crate::binary64::Binary64;
use crate::cost;
use crate::cost::{CacheAction, CacheActionCost};
use crate::decision;
use crate::decision::AgentCacheDecision;
use crate::inventory::{
    AgentCacheLifecycle, AgentCacheMissReason, AgentCacheRoutingSignals, AgentCacheStatus,
    AgentCacheTier, WorkerWithDpRank,
};
use crate::rounding;

verus! {

/// Whether a cost is made of charges that are amounts, less a finite saving.
spec fn well_made(c: CacheActionCost) -> bool {
    &&& cost::is_amount(c.lookup_blocks)
    &&& cost::is_amount(c.transfer_blocks)
    &&& cost::is_amount(c.restore_blocks)
    &&& cost::is_amount(c.staleness_risk_blocks)
    &&& cost::is_amount(c.affinity_break_blocks)
    &&& cost::is_amount(c.saved_prefill_blocks)
    &&& c.saved_prefill_blocks.finite()
}

/// What is charged for the prefix itself.
spec fn handling(c: CacheActionCost) -> Binary64 {
    c.lookup_blocks.plus(c.transfer_blocks).plus(c.restore_blocks)
}

/// All charges, added up.
spec fn charges(c: CacheActionCost) -> Binary64 {
    handling(c).plus(c.staleness_risk_blocks).plus(c.affinity_break_blocks)
}

/// Charges add up to amounts, and what is left of them is a number.
proof fn lemma_charges(c: CacheActionCost)
    requires
        well_made(c),
    ensures
        cost::is_amount(handling(c)),
        cost::is_amount(handling(c).plus(c.staleness_risk_blocks)),
        cost::is_amount(charges(c)),
        charges(c).summable(c.saved_prefill_blocks.negated()),
        !charges(c).plus(c.saved_prefill_blocks.negated()).nan(),
{
    cost::lemma_amounts_add(c.lookup_blocks, c.transfer_blocks);
    let fetched = c.lookup_blocks.plus(c.transfer_blocks);
    cost::lemma_amounts_add(fetched, c.restore_blocks);
    cost::lemma_amounts_add(handling(c), c.staleness_risk_blocks);
    cost::lemma_amounts_add(
        handling(c).plus(c.staleness_risk_blocks),
        c.affinity_break_blocks,
    );
}

/// A saving is finite, however many tokens are claimed.
pub proof fn lemma_saving_is_finite(status: AgentCacheStatus, block_size: u32)
    ensures
        status.saving(block_size).finite(),
        cost::is_amount(status.saving(block_size)),
{
    let one = vstd::arithmetic::power2::pow2(1074);
    let count = rounding::rounded(status.reusable_tokens as nat);
    let n = count * one;
    let d = block_size as nat;
    rounding::lemma_rounded_is_bounded(status.reusable_tokens as nat);
    if d > 0 {
        let pattern = rounding::lemma_on_grid(0x10_0000_0000_0000, 1086);
        let top = rounding::value(pattern);
        vstd::arithmetic::power2::lemma_pow2_pos(1074);
        vstd::arithmetic::power2::lemma_pow2_pos(1086);
        vstd::arithmetic::power2::lemma_pow2_adds(1074, 12);
        vstd::arithmetic::power2::lemma2_to64();
        assert(n <= top * d) by (nonlinear_arith)
            requires
                n == count * one,
                count <= 0x1_0000_0000_0000_0000,
                top == 0x10_0000_0000_0000 * (one * 4096),
                d >= 1,
                one > 0,
        ;
        rounding::lemma_round_monotone(n, top * d, d);
        rounding::lemma_round_exact(pattern, d);
        rounding::lemma_round_exact(pattern, 1);
        rounding::law_rounding_error(top, 1086);
    }
}

/// The cost of an offer is well made.
proof fn lemma_remote_is_well_made(
    status: AgentCacheStatus,
    request: AgentCacheRoutingSignals,
    block_size: u32,
    worker: WorkerWithDpRank,
)
    requires
        status.acceptable_figures(),
        status.remote(block_size, request, worker) is Some,
    ensures
        well_made(status.remote(block_size, request, worker)->0),
{
    let half = Binary64 { bits: binary64::HALF_BITS };
    binary64::lemma_product_not_negative(
        status.transfer_bytes_per_block_cost->0,
        rounding::rounded(status.known_bytes()->0 as nat),
    );
    cost::lemma_amounts_add(status.risk(request.now_ms), half);
    lemma_saving_is_finite(status, block_size);
}

/// The total of every offer is a number.
pub proof fn lemma_offer_is_number(
    signals: AgentCacheRoutingSignals,
    worker: WorkerWithDpRank,
    block_size: u32,
    ttl: u64,
    online: Seq<bool>,
    i: int,
)
    ensures
        signals.offer(worker, block_size, ttl, online, i) matches Some(c)
            ==> !c.total_blocks.nan(),
{
    if let Some(c) = signals.offer(worker, block_size, ttl, online, i) {
        lemma_remote_is_well_made(signals.statuses@[i], signals, block_size, worker);
        lemma_charges(c);
    }
}

/// The best of the offers that the first `n` reports make, if any does.
proof fn lemma_best_offer_so_far(
    signals: AgentCacheRoutingSignals,
    worker: WorkerWithDpRank,
    block_size: u32,
    ttl: u64,
    online: Seq<bool>,
    n: int,
) -> (k: int)
    requires
        0 <= n <= signals.statuses@.len(),
        exists|j: int|
            0 <= j < n && (#[trigger] signals.offer(worker, block_size, ttl, online, j)) is Some,
    ensures
        0 <= k < n,
        signals.offer(worker, block_size, ttl, online, k) is Some,
        forall|j: int|
            0 <= j < n && j != k && (#[trigger] signals.offer(
                worker,
                block_size,
                ttl,
                online,
                j,
            )) is Some ==> {
                let this = signals.offer(worker, block_size, ttl, online, k)->0.total_blocks;
                let that = signals.offer(worker, block_size, ttl, online, j)->0.total_blocks;
                if j < k {
                    this.below(that)
                } else {
                    !that.below(this)
                }
            },
    decreases n,
{
    let last = signals.offer(worker, block_size, ttl, online, n - 1);
    lemma_offer_is_number(signals, worker, block_size, ttl, online, n - 1);
    if exists|j: int|
        0 <= j < n - 1 && (#[trigger] signals.offer(worker, block_size, ttl, online, j)) is Some {
        let k = lemma_best_offer_so_far(signals, worker, block_size, ttl, online, n - 1);
        let best = signals.offer(worker, block_size, ttl, online, k);
        assert forall|j: int|
            true implies ((#[trigger] signals.offer(worker, block_size, ttl, online, j)) matches Some(
            c,
        ) ==> !c.total_blocks.nan()) by {
            lemma_offer_is_number(signals, worker, block_size, ttl, online, j);
        }
        if last is Some && last->0.total_blocks.below(best->0.total_blocks) {
            n - 1
        } else {
            k
        }
    } else {
        n - 1
    }
}

/// The last of the first `n` reports that is left out, if any is.
proof fn lemma_last_rejection_so_far(
    signals: AgentCacheRoutingSignals,
    ttl: u64,
    online: Seq<bool>,
    n: int,
) -> (k: int)
    requires
        0 <= n <= signals.statuses@.len(),
        exists|j: int| 0 <= j < n && (#[trigger] signals.rejection(ttl, online, j)) is Some,
    ensures
        0 <= k < n,
        signals.rejection(ttl, online, k) is Some,
        forall|j: int| k < j < n ==> (#[trigger] signals.rejection(ttl, online, j)) is None,
    decreases n,
{
    if signals.rejection(ttl, online, n - 1) is Some {
        n - 1
    } else {
        lemma_last_rejection_so_far(signals, ttl, online, n - 1)
    }
}

/// The reports settle every decision in one of four ways: by the first local
/// hit, by the best offer, by the last report that was left out, or by there
/// being none to speak of.
pub proof fn law_some_case_applies(
    signals: AgentCacheRoutingSignals,
    worker: WorkerWithDpRank,
    block_size: u32,
    ttl: u64,
    online: Seq<bool>,
)
    ensures
        ({
            ||| exists|k: int| signals.first_local_hit(worker, ttl, online, k)
            ||| {
                &&& signals.no_local_hit(worker, ttl, online)
                &&& exists|k: int| signals.best_offer(worker, block_size, ttl, online, k)
            }
            ||| {
                &&& signals.no_local_hit(worker, ttl, online)
                &&& signals.no_offer(worker, block_size, ttl, online)
                &&& exists|k: int| signals.last_rejection(ttl, online, k)
            }
            ||| {
                &&& signals.no_local_hit(worker, ttl, online)
                &&& signals.no_offer(worker, block_size, ttl, online)
                &&& signals.no_rejection(ttl, online)
            }
        }),
{
    let n = signals.statuses@.len() as int;
    if !signals.no_local_hit(worker, ttl, online) {
        let i = choose|i: int| signals.local_hit(worker, ttl, online, i);
        let k = signals.lemma_first_local_hit(worker, ttl, online, i);
    } else if !signals.no_offer(worker, block_size, ttl, online) {
        let j = choose|j: int|
            (#[trigger] signals.offer(worker, block_size, ttl, online, j)) is Some;
        assert(0 <= j < n);
        let k = lemma_best_offer_so_far(signals, worker, block_size, ttl, online, n);
        assert(signals.best_offer(worker, block_size, ttl, online, k));
    } else if !signals.no_rejection(ttl, online) {
        let j = choose|j: int|
            0 <= j < n && (#[trigger] signals.rejection(ttl, online, j)) is Some;
        let k = lemma_last_rejection_so_far(signals, ttl, online, n);
        assert(signals.last_rejection(ttl, online, k));
    }
}

/// Decisions are deterministic: the request, the worker, the settings and the
/// answers on liveness leave room for one only.
pub proof fn law_one_decision(
    signals: AgentCacheRoutingSignals,
    worker: WorkerWithDpRank,
    block_size: u32,
    ttl: u64,
    max: Binary64,
    online: Seq<bool>,
    one: AgentCacheDecision,
    other: AgentCacheDecision,
)
    requires
        signals.decides(worker, block_size, ttl, max, online, one),
        signals.decides(worker, block_size, ttl, max, online, other),
    ensures
        one == other,
{
    law_some_case_applies(signals, worker, block_size, ttl, online);
}

/// A decision either computes the prefix anew, at no cost and with no
/// adjustment, or uses a prefix that a trusted report of an online worker
/// physically holds, at the cost of that report, which is less than computing
/// the prefix anew.
pub proof fn law_used_prefix_is_trusted(
    signals: AgentCacheRoutingSignals,
    worker: WorkerWithDpRank,
    block_size: u32,
    ttl: u64,
    max: Binary64,
    online: Seq<bool>,
    decision: AgentCacheDecision,
)
    requires
        signals.decides(worker, block_size, ttl, max, online, decision),
    ensures
        decision.action == CacheAction::Recompute ==> decision == AgentCacheDecision::recomputing(
            decision.fallback_reason,
        ),
        decision.action != CacheAction::Recompute ==> {
            &&& signals.usable(block_size, max)
            &&& decision.fallback_reason == AgentCacheMissReason::NoMiss
            &&& decision.cost.action == decision.action
            &&& decision.cost.total_blocks.below(CacheActionCost::nothing().total_blocks)
            &&& exists|k: int| #[trigger]
                supports(signals, worker, block_size, ttl, online, decision, k)
        },
{
    law_some_case_applies(signals, worker, block_size, ttl, online);
    if decision.action != CacheAction::Recompute {
        if exists|k: int| signals.first_local_hit(worker, ttl, online, k) {
            let k = choose|k: int| signals.first_local_hit(worker, ttl, online, k);
            assert(supports(signals, worker, block_size, ttl, online, decision, k));
        } else {
            let k = choose|k: int| signals.best_offer(worker, block_size, ttl, online, k);
            assert(supports(signals, worker, block_size, ttl, online, decision, k));
        }
    }
}

/// Whether the report at `k` is the one that `decision` rests on.
pub open spec fn supports(
    signals: AgentCacheRoutingSignals,
    worker: WorkerWithDpRank,
    block_size: u32,
    ttl: u64,
    online: Seq<bool>,
    decision: AgentCacheDecision,
    k: int,
) -> bool {
    let status = signals.statuses@[k];
    &&& 0 <= k < signals.statuses@.len()
    &&& online[k]
    &&& status.verdict(signals, ttl) is Ok
    &&& status.physical_exact_hit
    &&& decision.tier == status.tier
    &&& match decision.action {
        CacheAction::LocalExactHit => {
            &&& status.worker == worker
            &&& status.tier == AgentCacheTier::Device
            &&& decision.cost == status.local(block_size, signals, worker)
        },
        CacheAction::RemoteRestore => Some(decision.cost) == status.remote(
            block_size,
            signals,
            worker,
        ),
        CacheAction::Recompute => false,
    }
}

/// The adjustment is a bounded credit: it lies between the negation of the
/// bound and zero, is the whole of the total where the bound allows it, and is
/// the negation of the bound where the total lies beyond that.
pub proof fn law_adjustment_is_bounded(
    signals: AgentCacheRoutingSignals,
    worker: WorkerWithDpRank,
    block_size: u32,
    ttl: u64,
    max: Binary64,
    online: Seq<bool>,
    decision: AgentCacheDecision,
)
    requires
        signals.decides(worker, block_size, ttl, max, online, decision),
    ensures
        decision.score_adjustment.finite(),
        decision.score_adjustment.units() <= 0,
        signals.usable(block_size, max) ==> {
            &&& -decision::bound(max).units() <= decision.score_adjustment.units()
            &&& decision::bound(max).units() == (if max.units() > 0 {
                max.units()
            } else {
                0
            })
            &&& -decision::bound(max).units() <= decision.cost.total_blocks.units()
                ==> decision.score_adjustment == decision.cost.total_blocks
            &&& decision.cost.total_blocks.units() < -decision::bound(max).units()
                ==> decision.score_adjustment == decision::bound(max).negated()
        },
{
    law_some_case_applies(signals, worker, block_size, ttl, online);
    if signals.usable(block_size, max) {
        rounding::lemma_value_at_least(max.magnitude());
        rounding::lemma_value_increases(
            decision::bound(max).magnitude(),
            rounding::INFINITE as nat,
        );
    }
}

/// Missing or untrusted data yields no adjustment: where every report is left
/// out, the prefix is computed anew, for the reason for which the last one was.
pub proof fn law_untrusted_data_fails_closed(
    signals: AgentCacheRoutingSignals,
    worker: WorkerWithDpRank,
    block_size: u32,
    ttl: u64,
    max: Binary64,
    online: Seq<bool>,
    decision: AgentCacheDecision,
)
    requires
        signals.decides(worker, block_size, ttl, max, online, decision),
        forall|i: int|
            0 <= i < signals.statuses@.len() ==> (#[trigger] signals.rejection(
                ttl,
                online,
                i,
            )) is Some,
    ensures
        decision == AgentCacheDecision::recomputing(
            if signals.usable(block_size, max) && signals.statuses@.len() > 0 {
                signals.rejection(ttl, online, signals.statuses@.len() - 1)->0
            } else {
                AgentCacheMissReason::InsufficientData
            },
        ),
{
    law_some_case_applies(signals, worker, block_size, ttl, online);
    let n = signals.statuses@.len() as int;
    if signals.usable(block_size, max) && n > 0 {
        assert(signals.rejection(ttl, online, n - 1) is Some);
        assert(signals.last_rejection(ttl, online, n - 1));
    }
}

/// A report that leaves out the size of the prefix or one of the three cost
/// figures makes no offer, and where there is neither an offer nor a local hit,
/// the prefix is computed anew.
pub proof fn law_missing_figures_fail_closed(
    signals: AgentCacheRoutingSignals,
    worker: WorkerWithDpRank,
    block_size: u32,
    ttl: u64,
    max: Binary64,
    online: Seq<bool>,
    decision: AgentCacheDecision,
)
    requires
        signals.decides(worker, block_size, ttl, max, online, decision),
        signals.no_local_hit(worker, ttl, online),
        forall|i: int|
            0 <= i < signals.statuses@.len() && (#[trigger] signals.rejection(ttl, online, i)) is None
                ==> {
                let status = signals.statuses@[i];
                ||| status.known_bytes() is None
                ||| status.transfer_bytes_per_block_cost is None
                ||| status.lookup_cost_blocks is None
                ||| status.restore_cost_blocks is None
            },
    ensures
        signals.no_offer(worker, block_size, ttl, online),
        decision == AgentCacheDecision::recomputing(decision.fallback_reason),
{
    law_some_case_applies(signals, worker, block_size, ttl, online);
    assert forall|j: int| (#[trigger] signals.offer(
        worker,
        block_size,
        ttl,
        online,
        j,
    )) is None by {
        if 0 <= j < signals.statuses@.len() {
            assert(signals.rejection(ttl, online, j) is None ==> signals.statuses@[j].remote(
                block_size,
                signals,
                worker,
            ) is None);
        }
    }
}

/// Inventory of offline workers fails closed.
pub proof fn law_offline_inventory_fails_closed(
    signals: AgentCacheRoutingSignals,
    worker: WorkerWithDpRank,
    block_size: u32,
    ttl: u64,
    max: Binary64,
    online: Seq<bool>,
    decision: AgentCacheDecision,
)
    requires
        signals.decides(worker, block_size, ttl, max, online, decision),
        signals.usable(block_size, max),
        signals.statuses@.len() > 0,
        forall|i: int| 0 <= i < signals.statuses@.len() ==> !#[trigger] online[i],
    ensures
        decision == AgentCacheDecision::recomputing(AgentCacheMissReason::WorkerOffline),
{
    law_untrusted_data_fails_closed(signals, worker, block_size, ttl, max, online, decision);
}

/// A trusted prefix on the worker's own device is preferred to every offer: the
/// decision then rests on the first one, or computes the prefix anew.
pub proof fn law_local_hit_comes_first(
    signals: AgentCacheRoutingSignals,
    worker: WorkerWithDpRank,
    block_size: u32,
    ttl: u64,
    max: Binary64,
    online: Seq<bool>,
    decision: AgentCacheDecision,
    i: int,
)
    requires
        signals.decides(worker, block_size, ttl, max, online, decision),
        signals.local_hit(worker, ttl, online, i),
    ensures
        decision.action != CacheAction::RemoteRestore,
        decision.action == CacheAction::LocalExactHit ==> exists|k: int|
            k <= i && #[trigger] signals.first_local_hit(worker, ttl, online, k) && decision.cost
                == signals.statuses@[k].local(block_size, signals, worker),
{
    let k = signals.lemma_first_local_hit(worker, ttl, online, i);
}

/// No offer is cheaper than the one that a decision takes.
pub proof fn law_cheapest_offer_is_taken(
    signals: AgentCacheRoutingSignals,
    worker: WorkerWithDpRank,
    block_size: u32,
    ttl: u64,
    max: Binary64,
    online: Seq<bool>,
    decision: AgentCacheDecision,
    i: int,
)
    requires
        signals.decides(worker, block_size, ttl, max, online, decision),
        decision.action == CacheAction::RemoteRestore,
        signals.offer(worker, block_size, ttl, online, i) is Some,
    ensures
        decision.cost.total_blocks.units() <= signals.offer(
            worker,
            block_size,
            ttl,
            online,
            i,
        )->0.total_blocks.units(),
{
    law_some_case_applies(signals, worker, block_size, ttl, online);
    lemma_offer_is_number(signals, worker, block_size, ttl, online, i);
    if exists|k: int| signals.first_local_hit(worker, ttl, online, k) {
        let k = choose|k: int| signals.first_local_hit(worker, ttl, online, k);
    } else {
        let k = choose|k: int| signals.best_offer(worker, block_size, ttl, online, k);
        lemma_offer_is_number(signals, worker, block_size, ttl, online, k);
    }
}

/// The router's own score on queue and load is left alone: no decision charges
/// for either.
pub proof fn law_queue_and_load_are_left_alone(
    signals: AgentCacheRoutingSignals,
    worker: WorkerWithDpRank,
    block_size: u32,
    ttl: u64,
    max: Binary64,
    online: Seq<bool>,
    decision: AgentCacheDecision,
)
    requires
        signals.decides(worker, block_size, ttl, max, online, decision),
    ensures
        decision.cost.queue_blocks == Binary64::nought(),
        decision.cost.load_imbalance_blocks == Binary64::nought(),
{
    law_some_case_applies(signals, worker, block_size, ttl, online);
}

/// The bound on the adjustment changes nothing but the adjustment, and a greater
/// bound never raises that.
pub proof fn law_bound_changes_adjustment_alone(
    signals: AgentCacheRoutingSignals,
    worker: WorkerWithDpRank,
    block_size: u32,
    ttl: u64,
    one_max: Binary64,
    other_max: Binary64,
    online: Seq<bool>,
    one: AgentCacheDecision,
    other: AgentCacheDecision,
)
    requires
        one_max.finite(),
        other_max.finite(),
        signals.decides(worker, block_size, ttl, one_max, online, one),
        signals.decides(worker, block_size, ttl, other_max, online, other),
    ensures
        one == (AgentCacheDecision { score_adjustment: one.score_adjustment, ..other }),
        one_max.units() <= other_max.units() ==> other.score_adjustment.units()
            <= one.score_adjustment.units(),
{
    law_some_case_applies(signals, worker, block_size, ttl, online);
}

/// A few halves add up exactly.
proof fn lemma_halves_add(a: Binary64, b: Binary64, i: nat, j: nat)
    requires
        a.finite() && b.finite(),
        !a.negative() && !b.negative(),
        a.units() == i * vstd::arithmetic::power2::pow2(1073),
        b.units() == j * vstd::arithmetic::power2::pow2(1073),
        i <= 16,
        j <= 16,
    ensures
        a.plus(b).finite(),
        !a.plus(b).negative(),
        a.plus(b).units() == (i + j) * vstd::arithmetic::power2::pow2(1073),
{
    let half = vstd::arithmetic::power2::pow2(1073);
    vstd::arithmetic::power2::lemma_pow2_pos(1073);
    let exact = (i + j) * half;
    assert(exact == i * half + j * half) by (nonlinear_arith)
        requires
            exact == (i + j) * half,
    ;
    assert(exact < 0x20_0000_0000_0000 * half) by (nonlinear_arith)
        requires
            exact == (i + j) * half,
            i + j <= 32,
            half > 0,
    ;
    let pattern = rounding::lemma_on_grid(i + j, 1073);
    rounding::lemma_round_exact(pattern, 1);
    rounding::law_rounding_error(exact, 1073);
    assert(rounding::round(exact, 1) == pattern);
}

/// How many halves a lifecycle's risk is.
spec fn risk_halves(status: AgentCacheStatus, now: u64) -> nat {
    match status.lifecycle {
        AgentCacheLifecycle::Active => 0,
        AgentCacheLifecycle::ToolWaiting => if status.leased(now) {
            0
        } else {
            2
        },
        AgentCacheLifecycle::Completed => 3,
        AgentCacheLifecycle::Cancelled => 4,
        AgentCacheLifecycle::Unknown => 1,
    }
}

proof fn lemma_risk_halves(status: AgentCacheStatus, now: u64)
    ensures
        status.risk(now).finite(),
        !status.risk(now).negative(),
        status.risk(now).units() == risk_halves(status, now) * vstd::arithmetic::power2::pow2(1073),
        risk_halves(status, now) <= 4,
{
    binary64::law_constants();
    vstd::arithmetic::power2::lemma_pow2_unfold(1074);
    let half = vstd::arithmetic::power2::pow2(1073);
    assert(0 * half == 0 && 1 * half == half && 2 * half == half + half && 3 * half == half + half
        + half && 4 * half == half + half + half + half);
}

/// The saving of a report is bounded as its tokens are.
proof fn lemma_saving_is_bounded(
    status: AgentCacheStatus,
    request: AgentCacheRoutingSignals,
    block_size: u32,
)
    requires
        status.sound_for(request),
        block_size > 0,
    ensures
        status.saving(block_size).finite(),
        0 <= status.saving(block_size).units() <= 0x40_0000 * vstd::arithmetic::power2::pow2(1074),
{
    let one = vstd::arithmetic::power2::pow2(1074);
    rounding::lemma_rounded_exact(status.reusable_tokens as nat);
    let n = status.reusable_tokens as nat * one;
    let d = block_size as nat;
    let pattern = rounding::lemma_on_grid(0x40_0000, 1074);
    let top = rounding::value(pattern);
    vstd::arithmetic::power2::lemma_pow2_pos(1074);
    assert(n <= top * d) by (nonlinear_arith)
        requires
            n == status.reusable_tokens as nat * one,
            status.reusable_tokens <= 0x40_0000,
            top == 0x40_0000 * one,
            d >= 1,
            one > 0,
    ;
    rounding::lemma_round_monotone(n, top * d, d);
    rounding::lemma_round_exact(pattern, d);
    rounding::lemma_round_exact(pattern, 1);
    rounding::law_rounding_error(top, 1074);
    if rounding::round(n, d) < pattern {
        rounding::lemma_value_increases(rounding::round(n, d), pattern);
    }
}

/// What a few halves less a bounded saving come to is off by less than an
/// eighth.
proof fn lemma_total_error(charged: Binary64, saved: Binary64, i: nat)
    requires
        charged.finite(),
        !charged.negative(),
        charged.units() == i * vstd::arithmetic::power2::pow2(1073),
        i <= 16,
        saved.finite(),
        0 <= saved.units() <= 0x40_0000 * vstd::arithmetic::power2::pow2(1074),
    ensures
        !charged.plus(saved.negated()).nan(),
        rounding::gap(
            charged.plus(saved.negated()).units(),
            charged.units() - saved.units(),
        ) < vstd::arithmetic::power2::pow2(1071),
{
    let spacing = vstd::arithmetic::power2::pow2(1071);
    vstd::arithmetic::power2::lemma_pow2_pos(1071);
    vstd::arithmetic::power2::lemma_pow2_unfold(1072);
    vstd::arithmetic::power2::lemma_pow2_unfold(1073);
    vstd::arithmetic::power2::lemma_pow2_unfold(1074);
    assert(charged.units() <= 64 * spacing) by (nonlinear_arith)
        requires
            charged.units() == i * (4 * spacing),
            i <= 16,
            spacing > 0,
    ;
    let exact = charged.units() - saved.units();
    assert(saved.negated().units() == -saved.units());
    if exact >= 0 {
        rounding::law_rounding_error(exact as nat, 1071);
    } else {
        rounding::law_rounding_error((-exact) as nat, 1071);
    }
}

/// What a local hit is charged, exactly.
pub proof fn lemma_local_charge(
    status: AgentCacheStatus,
    request: AgentCacheRoutingSignals,
    worker: WorkerWithDpRank,
) -> (halves: nat)
    ensures
        Binary64::nought().plus(Binary64::nought()).plus(Binary64::nought())
            == Binary64::nought(),
        ({
            let charged = Binary64::nought().plus(status.risk(request.now_ms)).plus(
                status.affinity(request, worker),
            );
            &&& charged.finite()
            &&& !charged.negative()
            &&& charged.units() == halves * vstd::arithmetic::power2::pow2(1073)
            &&& charged.units() == status.risk(request.now_ms).units() + status.affinity(
                request,
                worker,
            ).units()
        }),
        halves <= 16,
{
    let half = vstd::arithmetic::power2::pow2(1073);
    let zero = Binary64::nought();
    let risk = status.risk(request.now_ms);
    let affinity = status.affinity(request, worker);
    let i = risk_halves(status, request.now_ms);
    let j: nat = if affinity == zero {
        0
    } else {
        2
    };
    lemma_risk_halves(status, request.now_ms);
    binary64::law_constants();
    vstd::arithmetic::power2::lemma_pow2_unfold(1074);
    assert(0 * half == 0 && 2 * half == half + half);
    assert(affinity.units() == j * half);
    lemma_halves_add(zero, risk, 0, i);
    lemma_halves_add(zero.plus(risk), affinity, i, j);
    assert((i + j) * half == i * half + j * half) by (nonlinear_arith);
    i + j
}

/// How far the total of a local hit is off.
proof fn lemma_local_total(
    status: AgentCacheStatus,
    request: AgentCacheRoutingSignals,
    block_size: u32,
    worker: WorkerWithDpRank,
)
    requires
        status.sound_for(request),
        block_size > 0,
    ensures
        !status.local(block_size, request, worker).total_blocks.nan(),
        rounding::gap(
            status.local(block_size, request, worker).total_blocks.units(),
            status.risk(request.now_ms).units() + status.affinity(request, worker).units()
                - status.saving(block_size).units(),
        ) < vstd::arithmetic::power2::pow2(1071),
{
    let charged = Binary64::nought().plus(status.risk(request.now_ms)).plus(
        status.affinity(request, worker),
    );
    let halves = lemma_local_charge(status, request, worker);
    lemma_saving_is_bounded(status, request, block_size);
    lemma_total_error(charged, status.saving(block_size), halves);
}

/// A difference is less than zero just where the first number is less than the
/// second one.
proof fn lemma_sign_of_difference(charged: Binary64, saved: Binary64)
    requires
        cost::is_amount(charged),
        cost::is_amount(saved),
        saved.finite(),
    ensures
        charged.plus(saved.negated()).below(Binary64::nought()) <==> charged.units()
            < saved.units(),
{
    let exact = charged.units() - saved.units();
    rounding::lemma_value_at_least(charged.magnitude());
    rounding::lemma_value_at_least(saved.magnitude());
    rounding::lemma_value_increases(saved.magnitude(), rounding::INFINITE as nat);
    assert(saved.negated().units() == -saved.units());
    if exact < 0 {
        rounding::lemma_round_exact(1, 1);
        rounding::lemma_round_monotone(1, (-exact) as nat, 1);
        rounding::lemma_value_at_least(rounding::nearest((-exact) as nat, 1));
    }
}

/// A whole number of blocks is saved exactly, for token counts below 2^53.
pub proof fn law_whole_blocks_are_saved_exactly(
    status: AgentCacheStatus,
    block_size: u32,
    blocks: nat,
)
    requires
        block_size > 0,
        status.reusable_tokens == blocks * block_size,
        status.reusable_tokens < 0x20_0000_0000_0000,
    ensures
        status.saving(block_size).finite(),
        status.saving(block_size).units() == blocks * vstd::arithmetic::power2::pow2(1074),
{
    let one = vstd::arithmetic::power2::pow2(1074);
    rounding::lemma_rounded_exact(status.reusable_tokens as nat);
    let d = block_size as nat;
    assert(blocks <= blocks * d) by (nonlinear_arith)
        requires
            d >= 1,
    ;
    assert((blocks * d) * one == (blocks * one) * d) by (nonlinear_arith);
    let pattern = rounding::lemma_on_grid(blocks, 1074);
    rounding::lemma_round_exact(pattern, d);
    lemma_saving_is_finite(status, block_size);
}

/// A local hit is worth using just where its risk and the charge for leaving
/// the preferred worker are less than what it saves.
pub proof fn law_local_hit_worth_using(
    status: AgentCacheStatus,
    request: AgentCacheRoutingSignals,
    block_size: u32,
    worker: WorkerWithDpRank,
)
    requires
        block_size > 0,
    ensures
        status.local(block_size, request, worker).total_blocks.below(Binary64::nought())
            <==> status.risk(request.now_ms).units() + status.affinity(request, worker).units()
            < status.saving(block_size).units(),
{
    let zero = Binary64::nought();
    let charged = zero.plus(status.risk(request.now_ms)).plus(status.affinity(request, worker));
    lemma_local_charge(status, request, worker);
    lemma_saving_is_finite(status, block_size);
    lemma_sign_of_difference(charged, status.saving(block_size));
}

/// An offer is worth taking just where its charges, added up, are less than
/// what it saves.
pub proof fn law_offer_worth_taking(
    status: AgentCacheStatus,
    request: AgentCacheRoutingSignals,
    block_size: u32,
    worker: WorkerWithDpRank,
)
    requires
        status.acceptable_figures(),
        block_size > 0,
        status.remote(block_size, request, worker) is Some,
    ensures
        ({
            let c = status.remote(block_size, request, worker)->0;
            c.total_blocks.below(Binary64::nought()) <==> c.lookup_blocks.plus(
                c.transfer_blocks,
            ).plus(c.restore_blocks).plus(c.staleness_risk_blocks).plus(
                c.affinity_break_blocks,
            ).units() < c.saved_prefill_blocks.units()
        }),
{
    let c = status.remote(block_size, request, worker)->0;
    lemma_remote_is_well_made(status, request, block_size, worker);
    lemma_charges(c);
    lemma_sign_of_difference(charges(c), c.saved_prefill_blocks);
}

/// A riskier lifecycle makes a local hit cost strictly more.
pub proof fn law_riskier_local_hit_costs_more(
    safer: AgentCacheStatus,
    riskier: AgentCacheStatus,
    request: AgentCacheRoutingSignals,
    block_size: u32,
    worker: WorkerWithDpRank,
)
    requires
        safer.sound_for(request),
        riskier.sound_for(request),
        block_size > 0,
        safer.reusable_tokens == riskier.reusable_tokens,
        safer.affinity(request, worker) == riskier.affinity(request, worker),
        safer.risk(request.now_ms).below(riskier.risk(request.now_ms)),
    ensures
        safer.local(block_size, request, worker).total_blocks.below(
            riskier.local(block_size, request, worker).total_blocks,
        ),
{
    let i = risk_halves(safer, request.now_ms);
    let j = risk_halves(riskier, request.now_ms);
    let half = vstd::arithmetic::power2::pow2(1073);
    lemma_risk_halves(safer, request.now_ms);
    lemma_risk_halves(riskier, request.now_ms);
    lemma_local_total(safer, request, block_size, worker);
    lemma_local_total(riskier, request, block_size, worker);
    vstd::arithmetic::power2::lemma_pow2_pos(1071);
    vstd::arithmetic::power2::lemma_pow2_unfold(1072);
    vstd::arithmetic::power2::lemma_pow2_unfold(1073);
    assert(i < j) by (nonlinear_arith)
        requires
            i * half < j * half,
            half > 0,
    ;
    assert(j * half >= i * half + half) by (nonlinear_arith)
        requires
            j >= i + 1,
    ;
}

/// A completed agent's prefix decays: using it where it lies costs strictly
/// more than while the agent is active.
pub proof fn law_completed_decays(
    active: AgentCacheStatus,
    completed: AgentCacheStatus,
    request: AgentCacheRoutingSignals,
    block_size: u32,
    worker: WorkerWithDpRank,
)
    requires
        active.sound_for(request),
        block_size > 0,
        active.lifecycle == AgentCacheLifecycle::Active,
        completed == (AgentCacheStatus { lifecycle: AgentCacheLifecycle::Completed, ..active }),
    ensures
        active.local(block_size, request, worker).total_blocks.below(
            completed.local(block_size, request, worker).total_blocks,
        ),
{
    binary64::law_constants();
    vstd::arithmetic::power2::lemma_pow2_pos(1074);
    law_riskier_local_hit_costs_more(active, completed, request, block_size, worker);
}

/// Once its lease has run out, the prefix of an agent that waits for a tool
/// costs strictly more to use where it lies than that of an active one, unless
/// the active one is charged, under a lease that still runs, for leaving the
/// worker that the request prefers.
pub proof fn law_expired_lease_decays(
    active: AgentCacheStatus,
    expired: AgentCacheStatus,
    request: AgentCacheRoutingSignals,
    block_size: u32,
    worker: WorkerWithDpRank,
)
    requires
        active.sound_for(request),
        block_size > 0,
        active.lifecycle == AgentCacheLifecycle::Active,
        expired.lifecycle == AgentCacheLifecycle::ToolWaiting,
        !expired.leased(request.now_ms),
        expired == (AgentCacheStatus {
            lifecycle: expired.lifecycle,
            lease_expires_at_ms: expired.lease_expires_at_ms,
            ..active
        }),
        request.soft_affinity_worker is None || request.soft_affinity_worker == Some(worker)
            || !active.leased(request.now_ms),
    ensures
        active.local(block_size, request, worker).total_blocks.below(
            expired.local(block_size, request, worker).total_blocks,
        ),
{
    binary64::law_constants();
    vstd::arithmetic::power2::lemma_pow2_pos(1074);
    law_riskier_local_hit_costs_more(active, expired, request, block_size, worker);
}

/// An expired lease is no longer charged for leaving the preferred worker.
pub proof fn law_expired_lease_ends_affinity(
    status: AgentCacheStatus,
    request: AgentCacheRoutingSignals,
    worker: WorkerWithDpRank,
)
    requires
        !status.leased(request.now_ms),
    ensures
        status.affinity(request, worker) == Binary64::nought(),
{
}

/// Charges that are no less, for the same saving, make a cost that is no less.
proof fn lemma_no_cheaper(a: CacheActionCost, b: CacheActionCost)
    requires
        well_made(a),
        well_made(b),
        handling(a).units() <= handling(b).units(),
        a.staleness_risk_blocks.units() <= b.staleness_risk_blocks.units(),
        a.affinity_break_blocks == b.affinity_break_blocks,
        a.saved_prefill_blocks == b.saved_prefill_blocks,
    ensures
        charges(a).plus(a.saved_prefill_blocks.negated()).units() <= charges(b).plus(
            b.saved_prefill_blocks.negated(),
        ).units(),
{
    let risk = a.staleness_risk_blocks;
    let more = b.staleness_risk_blocks;
    let affinity = a.affinity_break_blocks;
    lemma_charges(a);
    lemma_charges(b);
    cost::lemma_amounts_add(handling(a), risk);
    cost::lemma_amounts_add(handling(b), risk);
    cost::lemma_amounts_add(handling(b), more);
    cost::lemma_amounts_add(risk, handling(b));
    cost::lemma_amounts_add(more, handling(b));
    binary64::law_sum_keeps_order(handling(a), handling(b), risk);
    binary64::lemma_sum_commutes(handling(b), risk);
    binary64::lemma_sum_commutes(handling(b), more);
    binary64::law_sum_keeps_order(risk, more, handling(b));
    cost::lemma_amounts_add(handling(a).plus(risk), affinity);
    cost::lemma_amounts_add(handling(b).plus(more), affinity);
    binary64::law_sum_keeps_order(handling(a).plus(risk), handling(b).plus(more), affinity);
    binary64::law_sum_keeps_order(charges(a), charges(b), a.saved_prefill_blocks.negated());
}

/// Greater charges for the prefix itself make an offer that costs no less.
pub proof fn lemma_dearer_parts(
    status: AgentCacheStatus,
    dearer: AgentCacheStatus,
    request: AgentCacheRoutingSignals,
    block_size: u32,
    worker: WorkerWithDpRank,
)
    requires
        status.acceptable_figures(),
        dearer.acceptable_figures(),
        status.remote(block_size, request, worker) is Some,
        dearer.remote(block_size, request, worker) is Some,
        ({
            let a = status.remote(block_size, request, worker)->0;
            let b = dearer.remote(block_size, request, worker)->0;
            &&& a.lookup_blocks.units() <= b.lookup_blocks.units()
            &&& a.transfer_blocks.units() <= b.transfer_blocks.units()
            &&& a.restore_blocks.units() <= b.restore_blocks.units()
            &&& a.staleness_risk_blocks == b.staleness_risk_blocks
            &&& a.affinity_break_blocks == b.affinity_break_blocks
            &&& a.saved_prefill_blocks == b.saved_prefill_blocks
        }),
    ensures
        status.remote(block_size, request, worker)->0.total_blocks.units() <= dearer.remote(
            block_size,
            request,
            worker,
        )->0.total_blocks.units(),
{
    let a = status.remote(block_size, request, worker)->0;
    let b = dearer.remote(block_size, request, worker)->0;
    lemma_remote_is_well_made(status, request, block_size, worker);
    lemma_remote_is_well_made(dearer, request, block_size, worker);
    lemma_sum_of_greater(a.lookup_blocks, a.transfer_blocks, b.lookup_blocks, b.transfer_blocks);
    cost::lemma_amounts_add(a.lookup_blocks, a.transfer_blocks);
    cost::lemma_amounts_add(b.lookup_blocks, b.transfer_blocks);
    lemma_sum_of_greater(
        a.lookup_blocks.plus(a.transfer_blocks),
        a.restore_blocks,
        b.lookup_blocks.plus(b.transfer_blocks),
        b.restore_blocks,
    );
    lemma_no_cheaper(a, b);
}

/// Greater amounts have a sum that is no less.
proof fn lemma_sum_of_greater(a: Binary64, b: Binary64, c: Binary64, d: Binary64)
    requires
        cost::is_amount(a),
        cost::is_amount(b),
        cost::is_amount(c),
        cost::is_amount(d),
        a.units() <= c.units(),
        b.units() <= d.units(),
    ensures
        a.plus(b).units() <= c.plus(d).units(),
{
    cost::lemma_amounts_add(a, b);
    cost::lemma_amounts_add(c, b);
    cost::lemma_amounts_add(c, d);
    cost::lemma_amounts_add(b, c);
    cost::lemma_amounts_add(d, c);
    binary64::law_sum_keeps_order(a, c, b);
    binary64::lemma_sum_commutes(c, b);
    binary64::lemma_sum_commutes(c, d);
    binary64::law_sum_keeps_order(b, d, c);
}

/// Restoring a prefix never costs less than using the same report where it
/// lies. Both save the same and are charged the same for leaving the preferred
/// worker; restoring runs half a block more of risk.
pub proof fn law_restoring_costs_no_less(
    status: AgentCacheStatus,
    request: AgentCacheRoutingSignals,
    block_size: u32,
    worker: WorkerWithDpRank,
)
    requires
        status.acceptable_figures(),
        block_size > 0,
        status.remote(block_size, request, worker) is Some,
    ensures
        ({
            let here = status.local(block_size, request, worker);
            let there = status.remote(block_size, request, worker)->0;
            let half = Binary64 { bits: binary64::HALF_BITS };
            &&& !here.total_blocks.nan()
            &&& !there.total_blocks.nan()
            &&& here.total_blocks.units() <= there.total_blocks.units()
            &&& there.saved_prefill_blocks == here.saved_prefill_blocks
            &&& there.affinity_break_blocks == here.affinity_break_blocks
            &&& there.staleness_risk_blocks == here.staleness_risk_blocks.plus(half)
            &&& there.staleness_risk_blocks.units() == here.staleness_risk_blocks.units()
                + half.units()
        }),
{
    let here = status.local(block_size, request, worker);
    let there = status.remote(block_size, request, worker)->0;
    let half = Binary64 { bits: binary64::HALF_BITS };
    let halves = risk_halves(status, request.now_ms);
    let unit = vstd::arithmetic::power2::pow2(1073);
    lemma_risk_halves(status, request.now_ms);
    binary64::law_constants();
    vstd::arithmetic::power2::lemma_pow2_unfold(1074);
    lemma_halves_add(status.risk(request.now_ms), half, halves, 1);
    assert((halves + 1) * unit == halves * unit + unit) by (nonlinear_arith);
    lemma_saving_is_finite(status, block_size);
    lemma_remote_is_well_made(status, request, block_size, worker);
    lemma_charges(here);
    lemma_charges(there);
    lemma_local_charge(status, request, worker);
    assert(handling(here) == Binary64::nought());
    lemma_no_cheaper(here, there);
}

/// A riskier lifecycle never makes an offer cheaper.
pub proof fn law_riskier_offer_is_no_cheaper(
    safer: AgentCacheStatus,
    riskier: AgentCacheStatus,
    request: AgentCacheRoutingSignals,
    block_size: u32,
    worker: WorkerWithDpRank,
)
    requires
        safer.acceptable_figures(),
        block_size > 0,
        riskier == (AgentCacheStatus { lifecycle: riskier.lifecycle, ..safer }),
        safer.risk(request.now_ms).units() <= riskier.risk(request.now_ms).units(),
    ensures
        safer.remote(block_size, request, worker) is Some <==> riskier.remote(
            block_size,
            request,
            worker,
        ) is Some,
        safer.remote(block_size, request, worker) is Some ==> safer.remote(
            block_size,
            request,
            worker,
        )->0.total_blocks.units() <= riskier.remote(
            block_size,
            request,
            worker,
        )->0.total_blocks.units(),
{
    if safer.remote(block_size, request, worker) is Some {
        let a = safer.remote(block_size, request, worker)->0;
        let b = riskier.remote(block_size, request, worker)->0;
        let half = Binary64 { bits: binary64::HALF_BITS };
        lemma_risk_halves(safer, request.now_ms);
        lemma_risk_halves(riskier, request.now_ms);
        binary64::law_sum_keeps_order(
            safer.risk(request.now_ms),
            riskier.risk(request.now_ms),
            half,
        );
        binary64::law_constants();
        vstd::arithmetic::power2::lemma_pow2_unfold(1074);
        lemma_halves_add(
            safer.risk(request.now_ms),
            half,
            risk_halves(safer, request.now_ms),
            1,
        );
        lemma_halves_add(
            riskier.risk(request.now_ms),
            half,
            risk_halves(riskier, request.now_ms),
            1,
        );
        lemma_remote_is_well_made(safer, request, block_size, worker);
        lemma_remote_is_well_made(riskier, request, block_size, worker);
        lemma_no_cheaper(a, b);
    }
}

/// No two actions share a name in metrics.
pub proof fn law_action_labels_differ(one: CacheAction, other: CacheAction)
    requires
        one.label() == other.label(),
    ensures
        one == other,
{
    reveal_strlit("local_exact_hit");
    assert("local_exact_hit"@.len() == 15);
    reveal_strlit("remote_restore");
    assert("remote_restore"@.len() == 14);
    reveal_strlit("recompute");
    assert("recompute"@.len() == 9);
}

/// No two tiers share a name in metrics.
pub proof fn law_tier_labels_differ(one: AgentCacheTier, other: AgentCacheTier)
    requires
        one.label() == other.label(),
    ensures
        one == other,
{
    reveal_strlit("device");
    assert("device"@.len() == 6);
    reveal_strlit("host_pinned");
    assert("host_pinned"@.len() == 11);
    reveal_strlit("disk");
    assert("disk"@.len() == 4);
    reveal_strlit("external");
    assert("external"@.len() == 8);
    reveal_strlit("unknown");
    assert("unknown"@.len() == 7);
}

/// No two reasons share a name in metrics.
pub proof fn law_reason_labels_differ(one: AgentCacheMissReason, other: AgentCacheMissReason)
    requires
        one.label() == other.label(),
    ensures
        one == other,
{
    reveal_strlit("stale");
    assert("stale"@.len() == 5);
    reveal_strlit("epoch_lag");
    assert("epoch_lag"@.len() == 9);
    reveal_strlit("worker_offline");
    assert("worker_offline"@.len() == 14);
    reveal_strlit("planner_only");
    assert("planner_only"@.len() == 12);
    reveal_strlit("exact_miss");
    assert("exact_miss"@.len() == 10);
    reveal_strlit("restore_timeout");
    assert("restore_timeout"@.len() == 15);
    reveal_strlit("insufficient_data");
    assert("insufficient_data"@.len() == 17);
    reveal_strlit("selected");
    assert("selected"@.len() == 8);
}

} // verus!
