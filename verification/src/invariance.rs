//! What may be changed in a request, or in its reports, without changing the
//! decision.

use vstd::prelude::*;

use crate::binary64::Binary64;
use crate::cost::CacheAction;
use crate::decision::AgentCacheDecision;
use crate::inventory::{AgentCacheRoutingSignals, AgentCacheStatus, WorkerWithDpRank};
use crate::laws;

verus! {

/// Whether two requests say the same, but for the reports that they carry.
pub open spec fn same_request(
    one: AgentCacheRoutingSignals,
    other: AgentCacheRoutingSignals,
) -> bool {
    &&& one.namespace_digest@ == other.namespace_digest@
    &&& one.identity_digest@ == other.identity_digest@
    &&& one.expected_epoch == other.expected_epoch
    &&& one.now_ms == other.now_ms
    &&& one.soft_affinity_worker == other.soft_affinity_worker
}

/// What a report comes to depends on the request's own data alone.
proof fn lemma_same_request(
    status: AgentCacheStatus,
    signals: AgentCacheRoutingSignals,
    altered: AgentCacheRoutingSignals,
    worker: WorkerWithDpRank,
    block_size: u32,
    ttl: u64,
)
    requires
        same_request(signals, altered),
    ensures
        status.verdict(altered, ttl) == status.verdict(signals, ttl),
        status.local(block_size, altered, worker) == status.local(block_size, signals, worker),
        status.remote(block_size, altered, worker) == status.remote(block_size, signals, worker),
{
}

/// Whether the reports at `j` of two requests come to the same.
spec fn alike_at(
    signals: AgentCacheRoutingSignals,
    altered: AgentCacheRoutingSignals,
    worker: WorkerWithDpRank,
    block_size: u32,
    ttl: u64,
    online: Seq<bool>,
    j: int,
) -> bool {
    let taken = signals.rejection(ttl, online, j) is None;
    &&& 0 <= j < signals.statuses@.len() ==> altered.rejection(ttl, online, j)
        == signals.rejection(ttl, online, j)
    &&& altered.local_hit(worker, ttl, online, j) == signals.local_hit(worker, ttl, online, j)
    &&& altered.offer(worker, block_size, ttl, online, j) == signals.offer(
        worker,
        block_size,
        ttl,
        online,
        j,
    )
    &&& 0 <= j < signals.statuses@.len() && taken ==> {
        &&& altered.statuses@[j].tier == signals.statuses@[j].tier
        &&& altered.statuses@[j].local(block_size, altered, worker)
            == signals.statuses@[j].local(block_size, signals, worker)
    }
}

/// Requests whose reports come to the same, each in its place, get the same
/// decision.
proof fn lemma_alike(
    signals: AgentCacheRoutingSignals,
    altered: AgentCacheRoutingSignals,
    worker: WorkerWithDpRank,
    block_size: u32,
    ttl: u64,
    max: Binary64,
    online: Seq<bool>,
    decision: AgentCacheDecision,
)
    requires
        signals.decides(worker, block_size, ttl, max, online, decision),
        altered.valid() == signals.valid(),
        altered.statuses@.len() == signals.statuses@.len(),
        forall|j: int| #[trigger]
            alike_at(signals, altered, worker, block_size, ttl, online, j),
    ensures
        altered.decides(worker, block_size, ttl, max, online, decision),
{
    let n = signals.statuses@.len() as int;
    if signals.usable(block_size, max) {
        assert forall|k: int| #[trigger]
            altered.first_local_hit(worker, ttl, online, k) implies decision
            == AgentCacheDecision::weighing(
            altered.statuses@[k].local(block_size, altered, worker),
            altered.statuses@[k].tier,
            max,
        ) by {
            assert(alike_at(signals, altered, worker, block_size, ttl, online, k));
            assert forall|j: int| 0 <= j < k implies !signals.local_hit(
                worker,
                ttl,
                online,
                j,
            ) by {
                assert(alike_at(signals, altered, worker, block_size, ttl, online, j));
                assert(!altered.local_hit(worker, ttl, online, j));
            }
            assert(signals.first_local_hit(worker, ttl, online, k));
        }
        if altered.no_local_hit(worker, ttl, online) {
            assert(signals.no_local_hit(worker, ttl, online)) by {
                assert forall|j: int| !signals.local_hit(worker, ttl, online, j) by {
                    assert(alike_at(signals, altered, worker, block_size, ttl, online, j));
                    assert(!altered.local_hit(worker, ttl, online, j));
                }
            }
            assert forall|k: int| #[trigger]
                altered.best_offer(worker, block_size, ttl, online, k) implies decision
                == AgentCacheDecision::weighing(
                altered.offer(worker, block_size, ttl, online, k)->0,
                altered.statuses@[k].tier,
                max,
            ) by {
                assert(alike_at(signals, altered, worker, block_size, ttl, online, k));
                assert forall|j: int|
                    (#[trigger] signals.offer(worker, block_size, ttl, online, j)) is Some && j
                        != k implies ({
                    let this = signals.offer(worker, block_size, ttl, online, k)->0.total_blocks;
                    let that = signals.offer(worker, block_size, ttl, online, j)->0.total_blocks;
                    if j < k {
                        this.below(that)
                    } else {
                        !that.below(this)
                    }
                }) by {
                    assert(alike_at(signals, altered, worker, block_size, ttl, online, j));
                    assert(altered.offer(worker, block_size, ttl, online, j) is Some);
                }
                assert(signals.best_offer(worker, block_size, ttl, online, k));
            }
            if altered.no_offer(worker, block_size, ttl, online) {
                assert(signals.no_offer(worker, block_size, ttl, online)) by {
                    assert forall|j: int|
                        (#[trigger] signals.offer(worker, block_size, ttl, online, j)) is None by {
                        assert(alike_at(signals, altered, worker, block_size, ttl, online, j));
                        assert(altered.offer(worker, block_size, ttl, online, j) is None);
                    }
                }
                assert forall|k: int| #[trigger]
                    altered.last_rejection(ttl, online, k) implies decision
                    == AgentCacheDecision::recomputing(altered.rejection(ttl, online, k)->0) by {
                    assert(alike_at(signals, altered, worker, block_size, ttl, online, k));
                    assert forall|j: int| k < j < n implies (#[trigger] signals.rejection(
                        ttl,
                        online,
                        j,
                    )) is None by {
                        assert(alike_at(signals, altered, worker, block_size, ttl, online, j));
                        assert(altered.rejection(ttl, online, j) is None);
                    }
                    assert(signals.last_rejection(ttl, online, k));
                }
                if altered.no_rejection(ttl, online) {
                    assert forall|j: int| 0 <= j < n implies (#[trigger] signals.rejection(
                        ttl,
                        online,
                        j,
                    )) is None by {
                        assert(alike_at(signals, altered, worker, block_size, ttl, online, j));
                        assert(altered.rejection(ttl, online, j) is None);
                    }
                    assert(signals.no_rejection(ttl, online));
                }
            }
        }
    }
}

/// Whether `later` is the report `status` with its times moved by `by`.
pub open spec fn report_moved(
    status: AgentCacheStatus,
    later: AgentCacheStatus,
    by: int,
) -> bool {
    &&& later == (AgentCacheStatus {
        namespace_digest: later.namespace_digest,
        identity_digest: later.identity_digest,
        timestamp_ms: later.timestamp_ms,
        lease_expires_at_ms: later.lease_expires_at_ms,
        ..status
    })
    &&& later.namespace_digest@ == status.namespace_digest@
    &&& later.identity_digest@ == status.identity_digest@
    &&& later.timestamp_ms == status.timestamp_ms + by
    &&& match status.lease_expires_at_ms {
        Some(expiry) => later.lease_expires_at_ms matches Some(moved) && moved == expiry + by,
        None => later.lease_expires_at_ms is None,
    }
}

/// Time enters a decision only relative to the request: where the request's
/// time and the times in all of its reports are moved alike, forward or back,
/// the decision stays the same. The reports come from the same workers, so any
/// predicate on workers answers for them as before.
pub proof fn law_time_is_relative(
    signals: AgentCacheRoutingSignals,
    altered: AgentCacheRoutingSignals,
    worker: WorkerWithDpRank,
    block_size: u32,
    ttl: u64,
    max: Binary64,
    online: Seq<bool>,
    decision: AgentCacheDecision,
    by: int,
)
    requires
        signals.decides(worker, block_size, ttl, max, online, decision),
        same_request(
            signals,
            (AgentCacheRoutingSignals { now_ms: signals.now_ms, ..altered }),
        ),
        altered.now_ms == signals.now_ms + by,
        altered.statuses@.len() == signals.statuses@.len(),
        forall|i: int|
            0 <= i < signals.statuses@.len() ==> report_moved(
                #[trigger] signals.statuses@[i],
                altered.statuses@[i],
                by,
            ),
    ensures
        altered.decides(worker, block_size, ttl, max, online, decision),
        forall|up: spec_fn(WorkerWithDpRank) -> bool| #[trigger]
            altered.liveness(up) == signals.liveness(up),
{
    assert forall|up: spec_fn(WorkerWithDpRank) -> bool| #[trigger]
        altered.liveness(up) == signals.liveness(up) by {
        assert(altered.liveness(up) =~= signals.liveness(up));
    }
    assert forall|j: int| #[trigger]
        alike_at(signals, altered, worker, block_size, ttl, online, j) by {
        if 0 <= j < signals.statuses@.len() {
            let status = signals.statuses@[j];
            let later = altered.statuses@[j];
            assert(report_moved(status, later, by));
            assert(later.leased(altered.now_ms) == status.leased(signals.now_ms));
            assert(later.fresh_for(altered, ttl) == status.fresh_for(signals, ttl));
            assert(later.sound_for(altered) == status.sound_for(signals));
            assert(later.verdict(altered, ttl) == status.verdict(signals, ttl));
            assert(later.risk(altered.now_ms) == status.risk(signals.now_ms));
            assert(later.affinity(altered, worker) == status.affinity(signals, worker));
            assert(later.local(block_size, altered, worker) == status.local(
                block_size,
                signals,
                worker,
            ));
            assert(later.remote(block_size, altered, worker) == status.remote(
                block_size,
                signals,
                worker,
            ));
        }
    }
    lemma_alike(signals, altered, worker, block_size, ttl, max, online, decision);
}

/// What an offline worker reports makes no difference: the decision stays the
/// same whatever stands in the place of its report.
pub proof fn law_offline_report_is_ignored(
    signals: AgentCacheRoutingSignals,
    altered: AgentCacheRoutingSignals,
    worker: WorkerWithDpRank,
    block_size: u32,
    ttl: u64,
    max: Binary64,
    online: Seq<bool>,
    decision: AgentCacheDecision,
    i: int,
    report: AgentCacheStatus,
)
    requires
        signals.decides(worker, block_size, ttl, max, online, decision),
        0 <= i < signals.statuses@.len(),
        !online[i],
        same_request(signals, altered),
        altered.statuses@ == signals.statuses@.update(i, report),
    ensures
        altered.decides(worker, block_size, ttl, max, online, decision),
{
    assert forall|j: int| #[trigger]
        alike_at(signals, altered, worker, block_size, ttl, online, j) by {
        if 0 <= j < signals.statuses@.len() && j != i {
            lemma_same_request(signals.statuses@[j], signals, altered, worker, block_size, ttl);
        }
    }
    lemma_alike(signals, altered, worker, block_size, ttl, max, online, decision);
}

/// Where the elements that a filter keeps came from.
proof fn lemma_filter_places(
    all: Seq<AgentCacheStatus>,
    keep: spec_fn(AgentCacheStatus) -> bool,
) -> (at: Seq<int>)
    ensures
        at.len() == all.filter(keep).len(),
        at.len() <= all.len(),
        forall|k: int|
            0 <= k < at.len() ==> 0 <= #[trigger] at[k] < all.len() && all.filter(keep)[k]
                == all[at[k]] && keep(all[at[k]]),
        forall|j: int, k: int| 0 <= j < k < at.len() ==> #[trigger] at[j] < #[trigger] at[k],
        forall|i: int| 0 <= i < all.len() && keep(#[trigger] all[i]) ==> at.contains(i),
    decreases all.len(),
{
    reveal(Seq::filter);
    if all.len() == 0 {
        Seq::empty()
    } else {
        let rest = all.drop_last();
        let before = lemma_filter_places(rest, keep);
        let last = all.len() - 1;
        let at = if keep(all.last()) {
            before.push(last)
        } else {
            before
        };
        assert forall|i: int| 0 <= i < all.len() && keep(#[trigger] all[i]) implies at.contains(
            i,
        ) by {
            if i < last {
                assert(keep(rest[i]));
                let k = choose|k: int| 0 <= k < before.len() && before[k] == i;
                assert(at[k] == i);
            } else {
                assert(at[at.len() - 1] == i);
            }
        }
        at
    }
}

/// Reports that keep their place among the online ones, with the offline ones
/// taken out, lead to the same decision but for the reason of a fallback.
proof fn lemma_offline_reports_removed(
    signals: AgentCacheRoutingSignals,
    kept: AgentCacheRoutingSignals,
    worker: WorkerWithDpRank,
    block_size: u32,
    ttl: u64,
    max: Binary64,
    online: Seq<bool>,
    kept_online: Seq<bool>,
    at: Seq<int>,
    one: AgentCacheDecision,
    other: AgentCacheDecision,
)
    requires
        signals.valid(),
        same_request(signals, kept),
        at.len() == kept.statuses@.len(),
        at.len() <= signals.statuses@.len(),
        forall|k: int|
            0 <= k < at.len() ==> 0 <= #[trigger] at[k] < signals.statuses@.len()
                && kept.statuses@[k] == signals.statuses@[at[k]] && online[at[k]]
                && kept_online[k],
        forall|j: int, k: int| 0 <= j < k < at.len() ==> #[trigger] at[j] < #[trigger] at[k],
        forall|i: int|
            0 <= i < signals.statuses@.len() && #[trigger] online[i] ==> at.contains(i),
        signals.decides(worker, block_size, ttl, max, online, one),
        kept.decides(worker, block_size, ttl, max, kept_online, other),
    ensures
        other == (AgentCacheDecision { fallback_reason: other.fallback_reason, ..one }),
        one.action != CacheAction::Recompute ==> other == one,
{
    assert forall|k: int| 0 <= k < at.len() implies (#[trigger] kept.local_hit(
        worker,
        ttl,
        kept_online,
        k,
    )) == signals.local_hit(worker, ttl, online, at[k]) by {
        lemma_same_request(kept.statuses@[k], signals, kept, worker, block_size, ttl);
    }
    assert forall|k: int| 0 <= k < at.len() implies (#[trigger] kept.offer(
        worker,
        block_size,
        ttl,
        kept_online,
        k,
    )) == signals.offer(worker, block_size, ttl, online, at[k]) by {
        lemma_same_request(kept.statuses@[k], signals, kept, worker, block_size, ttl);
    }
    laws::law_some_case_applies(signals, worker, block_size, ttl, online);
    laws::law_some_case_applies(kept, worker, block_size, ttl, kept_online);
    if signals.usable(block_size, max) {
        if exists|i: int| signals.first_local_hit(worker, ttl, online, i) {
            let i = choose|i: int| signals.first_local_hit(worker, ttl, online, i);
            assert(online[i]);
            let k = choose|k: int| 0 <= k < at.len() && at[k] == i;
            assert(kept.local_hit(worker, ttl, kept_online, k));
            assert forall|j: int| 0 <= j < k implies !kept.local_hit(
                worker,
                ttl,
                kept_online,
                j,
            ) by {
                assert(at[j] < at[k]);
                assert(!signals.local_hit(worker, ttl, online, at[j]));
            }
            assert(kept.first_local_hit(worker, ttl, kept_online, k));
            lemma_same_request(kept.statuses@[k], signals, kept, worker, block_size, ttl);
        } else {
            assert(signals.no_local_hit(worker, ttl, online));
            assert(kept.no_local_hit(worker, ttl, kept_online)) by {
                assert forall|j: int| !kept.local_hit(worker, ttl, kept_online, j) by {
                    if 0 <= j < at.len() {
                        assert(!signals.local_hit(worker, ttl, online, at[j]));
                    }
                }
            }
            if exists|i: int| signals.best_offer(worker, block_size, ttl, online, i) {
                let i = choose|i: int| signals.best_offer(worker, block_size, ttl, online, i);
                assert(online[i]);
                let k = choose|k: int| 0 <= k < at.len() && at[k] == i;
                assert(kept.offer(worker, block_size, ttl, kept_online, k) is Some);
                assert forall|j: int|
                    (#[trigger] kept.offer(worker, block_size, ttl, kept_online, j)) is Some && j
                        != k implies ({
                    let this = kept.offer(worker, block_size, ttl, kept_online, k)->0.total_blocks;
                    let that = kept.offer(worker, block_size, ttl, kept_online, j)->0.total_blocks;
                    if j < k {
                        this.below(that)
                    } else {
                        !that.below(this)
                    }
                }) by {
                    assert(signals.offer(worker, block_size, ttl, online, at[j]) is Some);
                    if j < k {
                        assert(at[j] < at[k]);
                    } else {
                        assert(at[k] < at[j]);
                    }
                }
                assert(kept.best_offer(worker, block_size, ttl, kept_online, k));
            } else {
                assert(kept.no_offer(worker, block_size, ttl, kept_online)) by {
                    assert forall|j: int|
                        (#[trigger] kept.offer(
                            worker,
                            block_size,
                            ttl,
                            kept_online,
                            j,
                        )) is None by {
                        if 0 <= j < at.len() {
                            assert(signals.offer(worker, block_size, ttl, online, at[j]) is None);
                        }
                    }
                }
            }
        }
    }
}

/// Inventory of a worker that is not online earns no credit: a request without
/// the reports of such workers, the others kept in order, gets the same action,
/// tier, adjustment and cost. Only the reason for computing a prefix anew may
/// differ.
pub proof fn law_offline_reports_earn_nothing(
    signals: AgentCacheRoutingSignals,
    kept: AgentCacheRoutingSignals,
    worker: WorkerWithDpRank,
    block_size: u32,
    ttl: u64,
    max: Binary64,
    up: spec_fn(WorkerWithDpRank) -> bool,
    one: AgentCacheDecision,
    other: AgentCacheDecision,
)
    requires
        signals.valid(),
        same_request(signals, kept),
        kept.statuses@ == signals.statuses@.filter(|s: AgentCacheStatus| up(s.worker)),
        signals.decides(worker, block_size, ttl, max, signals.liveness(up), one),
        kept.decides(worker, block_size, ttl, max, kept.liveness(up), other),
    ensures
        other.action == one.action,
        other.tier == one.tier,
        other.score_adjustment == one.score_adjustment,
        other.cost == one.cost,
        one.action != CacheAction::Recompute ==> other == one,
{
    let keep = |s: AgentCacheStatus| up(s.worker);
    let at = lemma_filter_places(signals.statuses@, keep);
    let online = signals.liveness(up);
    assert forall|i: int|
        0 <= i < signals.statuses@.len() && #[trigger] online[i] implies at.contains(i) by {
        assert(keep(signals.statuses@[i]));
    }
    lemma_offline_reports_removed(
        signals,
        kept,
        worker,
        block_size,
        ttl,
        max,
        online,
        kept.liveness(up),
        at,
        one,
        other,
    );
}

/// What is reported after a first local hit makes no difference.
pub proof fn law_report_after_local_hit_is_ignored(
    signals: AgentCacheRoutingSignals,
    altered: AgentCacheRoutingSignals,
    worker: WorkerWithDpRank,
    block_size: u32,
    ttl: u64,
    max: Binary64,
    online: Seq<bool>,
    decision: AgentCacheDecision,
    k: int,
    i: int,
    report: AgentCacheStatus,
)
    requires
        signals.decides(worker, block_size, ttl, max, online, decision),
        signals.local_hit(worker, ttl, online, k),
        k < i < signals.statuses@.len(),
        same_request(signals, altered),
        altered.statuses@ == signals.statuses@.update(i, report),
    ensures
        altered.decides(worker, block_size, ttl, max, online, decision),
{
    let first = signals.lemma_first_local_hit(worker, ttl, online, k);
    assert forall|j: int| 0 <= j <= first implies (#[trigger] altered.local_hit(
        worker,
        ttl,
        online,
        j,
    )) == signals.local_hit(worker, ttl, online, j) by {
        lemma_same_request(signals.statuses@[j], signals, altered, worker, block_size, ttl);
    }
    lemma_same_request(signals.statuses@[first], signals, altered, worker, block_size, ttl);
    assert(altered.local_hit(worker, ttl, online, first));
    assert forall|m: int| #[trigger] altered.first_local_hit(worker, ttl, online, m) implies m
        == first by {
        assert(altered.local_hit(worker, ttl, online, first));
    }
    assert(!altered.no_local_hit(worker, ttl, online));
}

} // verus!
