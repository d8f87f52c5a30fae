use agent_cache::{
    AgentCacheLifecycle, AgentCacheMissReason, AgentCacheRoutingSignals, AgentCacheStatus,
    AgentCacheTier, Binary64, CacheAction, WorkerWithDpRank,
};

fn number(value: f64) -> Binary64 {
    Binary64 {
        bits: value.to_bits(),
    }
}

fn double(value: Binary64) -> f64 {
    f64::from_bits(value.bits)
}

fn worker(id: u64) -> WorkerWithDpRank {
    WorkerWithDpRank {
        worker_id: id,
        dp_rank: 0,
    }
}

fn status(worker_id: u64) -> AgentCacheStatus {
    AgentCacheStatus {
        worker: worker(worker_id),
        namespace_digest: "ns1".into(),
        identity_digest: "id1".into(),
        reusable_tokens: 1024,
        estimated_bytes: Some(1024),
        actual_bytes: None,
        tier: AgentCacheTier::Device,
        epoch: 3,
        timestamp_ms: 1_000,
        physical_exact_hit: true,
        planner_candidate: true,
        lease_expires_at_ms: Some(2_000),
        lifecycle: AgentCacheLifecycle::Active,
        miss_reason: AgentCacheMissReason::NoMiss,
        lookup_cost_blocks: Some(number(1.0)),
        restore_cost_blocks: Some(number(1.0)),
        transfer_bytes_per_block_cost: Some(number(0.001)),
    }
}

fn signals(statuses: Vec<AgentCacheStatus>) -> AgentCacheRoutingSignals {
    AgentCacheRoutingSignals {
        namespace_digest: "ns1".into(),
        identity_digest: "id1".into(),
        expected_epoch: 3,
        now_ms: 1_100,
        soft_affinity_worker: None,
        statuses,
    }
}

#[test]
fn local_exact_hit_gets_bounded_credit() {
    let decision = signals(vec![status(1)]).decision_for(worker(1), 16, 500, number(8.0));
    assert_eq!(decision.action, CacheAction::LocalExactHit);
    assert_eq!(double(decision.score_adjustment), -8.0);
}

#[test]
fn remote_restore_must_beat_recompute() {
    let mut cheap = status(1);
    cheap.tier = AgentCacheTier::HostPinned;
    assert_eq!(
        signals(vec![cheap])
            .decision_for(worker(2), 16, 500, number(16.0))
            .action,
        CacheAction::RemoteRestore
    );
    let mut costly = status(1);
    costly.tier = AgentCacheTier::HostPinned;
    costly.transfer_bytes_per_block_cost = Some(number(1.0));
    assert_eq!(
        signals(vec![costly])
            .decision_for(worker(2), 16, 500, number(16.0))
            .action,
        CacheAction::Recompute
    );
}

#[test]
fn planner_candidate_is_not_a_physical_hit() {
    let mut s = status(1);
    s.physical_exact_hit = false;
    let decision = signals(vec![s]).decision_for(worker(1), 16, 500, number(8.0));
    assert_eq!(decision.action, CacheAction::Recompute);
    assert_eq!(decision.fallback_reason, AgentCacheMissReason::PlannerOnly);
}

#[test]
fn execution_miss_and_restore_timeout_fall_back_to_recompute() {
    for reason in [
        AgentCacheMissReason::ExactMiss,
        AgentCacheMissReason::RestoreTimeout,
    ] {
        let mut unavailable = status(1);
        unavailable.physical_exact_hit = false;
        unavailable.planner_candidate = false;
        unavailable.miss_reason = reason;

        let decision = signals(vec![unavailable]).decision_for(worker(1), 16, 500, number(8.0));
        assert_eq!(decision.action, CacheAction::Recompute);
        assert_eq!(double(decision.score_adjustment), 0.0);
        assert_eq!(decision.fallback_reason, reason);
    }
}

#[test]
fn stale_epoch_and_missing_costs_fail_closed() {
    let mut stale = status(1);
    stale.timestamp_ms = 1;
    assert_eq!(
        signals(vec![stale])
            .decision_for(worker(1), 16, 10, number(8.0))
            .fallback_reason,
        AgentCacheMissReason::Stale
    );
    let mut epoch = status(1);
    epoch.epoch = 2;
    assert_eq!(
        signals(vec![epoch])
            .decision_for(worker(1), 16, 500, number(8.0))
            .fallback_reason,
        AgentCacheMissReason::EpochLag
    );
    let mut missing = status(1);
    missing.tier = AgentCacheTier::HostPinned;
    missing.actual_bytes = None;
    missing.estimated_bytes = None;
    assert_eq!(
        signals(vec![missing])
            .decision_for(worker(2), 16, 500, number(8.0))
            .action,
        CacheAction::Recompute
    );
}

#[test]
fn expired_lease_removes_affinity_credit_and_completed_decays() {
    let mut expired = status(1);
    expired.lifecycle = AgentCacheLifecycle::ToolWaiting;
    expired.lease_expires_at_ms = Some(1_050);
    let active = status(1);
    let expired_cost = double(
        signals(vec![expired])
            .decision_for(worker(1), 16, 500, number(128.0))
            .cost
            .total_blocks,
    );
    let active_cost = double(
        signals(vec![active])
            .decision_for(worker(1), 16, 500, number(128.0))
            .cost
            .total_blocks,
    );
    assert!(expired_cost > active_cost);
    let mut completed = status(1);
    completed.lifecycle = AgentCacheLifecycle::Completed;
    assert!(
        double(
            signals(vec![completed])
                .decision_for(worker(1), 16, 500, number(128.0))
                .cost
                .total_blocks
        ) > active_cost
    );
}

#[test]
fn offline_inventory_fails_closed() {
    let decision =
        signals(vec![status(1)]).decision_for_online(worker(2), 16, 500, number(8.0), |_| false);
    assert_eq!(decision.action, CacheAction::Recompute);
    assert_eq!(
        decision.fallback_reason,
        AgentCacheMissReason::WorkerOffline
    );
    assert_eq!(double(decision.score_adjustment), 0.0);
}

#[test]
fn metric_labels_are_fixed_low_cardinality_values() {
    assert_eq!(CacheAction::LocalExactHit.metric_label(), "local_exact_hit");
    assert_eq!(CacheAction::RemoteRestore.metric_label(), "remote_restore");
    assert_eq!(
        AgentCacheMissReason::PlannerOnly.metric_label(),
        "planner_only"
    );
    assert_eq!(AgentCacheMissReason::NoMiss.metric_label(), "selected");
    assert_eq!(AgentCacheTier::HostPinned.metric_label(), "host_pinned");
    assert_eq!(AgentCacheTier::Unknown.metric_label(), "unknown");
}

#[test]
fn remaining_labels() {
    assert_eq!(CacheAction::Recompute.metric_label(), "recompute");
    assert_eq!(AgentCacheTier::Device.metric_label(), "device");
    assert_eq!(AgentCacheTier::Disk.metric_label(), "disk");
    assert_eq!(AgentCacheTier::External.metric_label(), "external");
    assert_eq!(AgentCacheMissReason::Stale.metric_label(), "stale");
    assert_eq!(AgentCacheMissReason::EpochLag.metric_label(), "epoch_lag");
    assert_eq!(
        AgentCacheMissReason::WorkerOffline.metric_label(),
        "worker_offline"
    );
    assert_eq!(AgentCacheMissReason::ExactMiss.metric_label(), "exact_miss");
    assert_eq!(
        AgentCacheMissReason::RestoreTimeout.metric_label(),
        "restore_timeout"
    );
    assert_eq!(
        AgentCacheMissReason::InsufficientData.metric_label(),
        "insufficient_data"
    );
}

#[test]
fn defaults() {
    assert_eq!(AgentCacheTier::default(), AgentCacheTier::Unknown);
    assert_eq!(AgentCacheLifecycle::default(), AgentCacheLifecycle::Unknown);
    assert_eq!(
        AgentCacheMissReason::default(),
        AgentCacheMissReason::NoMiss
    );
    let empty = AgentCacheRoutingSignals::default();
    assert!(empty.namespace_digest.is_empty());
    assert!(empty.identity_digest.is_empty());
    assert_eq!(empty.expected_epoch, 0);
    assert_eq!(empty.now_ms, 0);
    assert_eq!(empty.soft_affinity_worker, None);
    assert!(empty.statuses.is_empty());
    assert!(!empty.is_valid());
}

#[test]
fn local_cost_parts() {
    let mut waiting = status(1);
    waiting.reusable_tokens = 1000;
    waiting.lifecycle = AgentCacheLifecycle::Cancelled;
    let mut request = signals(vec![waiting]);
    request.soft_affinity_worker = Some(worker(9));
    let decision = request.decision_for(worker(1), 48, 500, number(128.0));
    assert_eq!(decision.action, CacheAction::LocalExactHit);
    assert_eq!(decision.tier, AgentCacheTier::Device);
    assert_eq!(decision.fallback_reason, AgentCacheMissReason::NoMiss);
    let cost = decision.cost;
    assert_eq!(cost.action, CacheAction::LocalExactHit);
    assert_eq!(double(cost.saved_prefill_blocks), 1000.0 / 48.0);
    assert_eq!(double(cost.queue_blocks), 0.0);
    assert_eq!(double(cost.lookup_blocks), 0.0);
    assert_eq!(double(cost.transfer_blocks), 0.0);
    assert_eq!(double(cost.restore_blocks), 0.0);
    assert_eq!(double(cost.load_imbalance_blocks), 0.0);
    assert_eq!(double(cost.staleness_risk_blocks), 2.0);
    assert_eq!(double(cost.affinity_break_blocks), 1.0);
    assert_eq!(double(cost.total_blocks), 3.0 - 1000.0 / 48.0);
    assert_eq!(double(decision.score_adjustment), 3.0 - 1000.0 / 48.0);
}

#[test]
fn remote_cost_parts() {
    let mut disk = status(1);
    disk.tier = AgentCacheTier::Disk;
    disk.reusable_tokens = 777;
    disk.actual_bytes = Some(12_345);
    disk.lookup_cost_blocks = Some(number(0.1));
    disk.restore_cost_blocks = Some(number(0.7));
    disk.transfer_bytes_per_block_cost = Some(number(0.000_3));
    disk.lifecycle = AgentCacheLifecycle::Completed;
    let decision = signals(vec![disk]).decision_for(worker(1), 16, 500, number(1000.0));
    assert_eq!(decision.action, CacheAction::RemoteRestore);
    assert_eq!(decision.tier, AgentCacheTier::Disk);
    let cost = decision.cost;
    let transfer = 12_345.0 * 0.000_3;
    let saved = 777.0 / 16.0;
    assert_eq!(double(cost.saved_prefill_blocks), saved);
    assert_eq!(double(cost.lookup_blocks), 0.1);
    assert_eq!(double(cost.transfer_blocks), transfer);
    assert_eq!(double(cost.restore_blocks), 0.7);
    assert_eq!(double(cost.staleness_risk_blocks), 2.0);
    assert_eq!(double(cost.affinity_break_blocks), 0.0);
    let total = 0.1 + transfer + 0.7 + 2.0 + 0.0 - saved;
    assert_eq!(double(cost.total_blocks), total);
    assert_eq!(double(decision.score_adjustment), total);
}

#[test]
fn lifecycle_risks() {
    let risk = |lifecycle: AgentCacheLifecycle, lease: Option<u64>| {
        let mut s = status(1);
        s.lifecycle = lifecycle;
        s.lease_expires_at_ms = lease;
        double(s.lifecycle_risk(1_100))
    };
    assert_eq!(risk(AgentCacheLifecycle::Active, None), 0.0);
    assert_eq!(risk(AgentCacheLifecycle::ToolWaiting, Some(1_101)), 0.0);
    assert_eq!(risk(AgentCacheLifecycle::ToolWaiting, Some(1_100)), 1.0);
    assert_eq!(risk(AgentCacheLifecycle::ToolWaiting, None), 1.0);
    assert_eq!(risk(AgentCacheLifecycle::Completed, None), 1.5);
    assert_eq!(risk(AgentCacheLifecycle::Cancelled, None), 2.0);
    assert_eq!(risk(AgentCacheLifecycle::Unknown, None), 0.5);
}

#[test]
fn affinity_is_charged_while_the_lease_runs() {
    let mut request = signals(vec![]);
    request.soft_affinity_worker = Some(worker(9));
    let mut s = status(1);
    assert_eq!(double(s.affinity_break(&request, worker(1))), 1.0);
    assert_eq!(double(s.affinity_break(&request, worker(9))), 0.0);
    s.lease_expires_at_ms = Some(1_100);
    assert_eq!(double(s.affinity_break(&request, worker(1))), 0.0);
    s.lease_expires_at_ms = None;
    assert_eq!(double(s.affinity_break(&request, worker(1))), 0.0);
    request.soft_affinity_worker = None;
    s.lease_expires_at_ms = Some(9_999);
    assert_eq!(double(s.affinity_break(&request, worker(1))), 0.0);
}

#[test]
fn unsound_reports_are_insufficient_data() {
    let request = signals(vec![]);
    let refused = |s: AgentCacheStatus| {
        assert_eq!(
            s.validate_for(&request, 500),
            Err(AgentCacheMissReason::InsufficientData)
        );
    };
    assert_eq!(status(1).validate_for(&request, 500), Ok(()));
    let mut s = status(1);
    s.namespace_digest = "".into();
    refused(s);
    let mut s = status(1);
    s.namespace_digest = "ns2".into();
    refused(s);
    let mut s = status(1);
    s.identity_digest = "id 1".into();
    refused(s);
    let mut s = status(1);
    s.identity_digest = "id2".into();
    refused(s);
    let mut s = status(1);
    s.reusable_tokens = 0;
    refused(s);
    let mut s = status(1);
    s.reusable_tokens = 4_000_001;
    refused(s);
    let mut s = status(1);
    s.estimated_bytes = Some((1 << 50) + 1);
    refused(s);
    let mut s = status(1);
    s.actual_bytes = Some((1 << 50) + 1);
    refused(s);
    for bad in [f64::NAN, f64::INFINITY, f64::NEG_INFINITY, -1.0, -1e-320] {
        let mut s = status(1);
        s.lookup_cost_blocks = Some(number(bad));
        refused(s);
        let mut s = status(1);
        s.restore_cost_blocks = Some(number(bad));
        refused(s);
        let mut s = status(1);
        s.transfer_bytes_per_block_cost = Some(number(bad));
        refused(s);
    }
    let mut s = status(1);
    s.reusable_tokens = 4_000_000;
    s.estimated_bytes = Some(1 << 50);
    s.actual_bytes = Some(1 << 50);
    s.lookup_cost_blocks = Some(number(-0.0));
    s.restore_cost_blocks = None;
    assert_eq!(s.validate_for(&request, 500), Ok(()));
}

#[test]
fn freshness_reaches_both_ways() {
    let mut request = signals(vec![]);
    request.now_ms = 10_000;
    let mut s = status(1);
    s.timestamp_ms = 9_500;
    assert_eq!(s.validate_for(&request, 500), Ok(()));
    s.timestamp_ms = 9_499;
    assert_eq!(
        s.validate_for(&request, 500),
        Err(AgentCacheMissReason::Stale)
    );
    s.timestamp_ms = 10_500;
    assert_eq!(s.validate_for(&request, 500), Ok(()));
    s.timestamp_ms = 10_501;
    assert_eq!(
        s.validate_for(&request, 500),
        Err(AgentCacheMissReason::Stale)
    );
    s.timestamp_ms = u64::MAX;
    request.now_ms = u64::MAX - 1;
    assert_eq!(s.validate_for(&request, 500), Ok(()));
    request.now_ms = 0;
    assert_eq!(s.validate_for(&request, u64::MAX), Ok(()));
}

#[test]
fn the_first_fault_is_reported() {
    let request = signals(vec![]);
    let mut s = status(1);
    s.physical_exact_hit = false;
    s.planner_candidate = false;
    s.miss_reason = AgentCacheMissReason::ExactMiss;
    assert_eq!(
        s.validate_for(&request, 500),
        Err(AgentCacheMissReason::ExactMiss)
    );
    s.planner_candidate = true;
    assert_eq!(
        s.validate_for(&request, 500),
        Err(AgentCacheMissReason::PlannerOnly)
    );
    s.timestamp_ms = 0;
    assert_eq!(
        s.validate_for(&request, 500),
        Err(AgentCacheMissReason::Stale)
    );
    s.epoch = 0;
    assert_eq!(
        s.validate_for(&request, 500),
        Err(AgentCacheMissReason::EpochLag)
    );
    s.reusable_tokens = 0;
    assert_eq!(
        s.validate_for(&request, 500),
        Err(AgentCacheMissReason::InsufficientData)
    );
}

#[test]
fn unusable_requests_are_insufficient_data() {
    let refused = |request: AgentCacheRoutingSignals, block_size: u32, max: f64| {
        let decision = request.decision_for(worker(1), block_size, 500, number(max));
        assert_eq!(decision.action, CacheAction::Recompute);
        assert_eq!(decision.tier, AgentCacheTier::Unknown);
        assert_eq!(double(decision.score_adjustment), 0.0);
        assert_eq!(
            decision.fallback_reason,
            AgentCacheMissReason::InsufficientData
        );
    };
    refused(signals(vec![status(1)]), 0, 8.0);
    refused(signals(vec![status(1)]), 16, f64::NAN);
    refused(signals(vec![status(1)]), 16, f64::INFINITY);
    refused(signals(vec![status(1)]), 16, f64::NEG_INFINITY);
    refused(signals(vec![]), 16, 8.0);
    let mut request = signals(vec![status(1)]);
    request.namespace_digest = "a b".into();
    refused(request, 16, 8.0);
    refused(signals(vec![status(1); 257]), 16, 8.0);
    assert!(signals(vec![status(1); 256]).is_valid());
    assert!(!signals(vec![status(1); 257]).is_valid());
}

#[test]
fn the_first_local_hit_ends_the_search() {
    let mut remote = status(7);
    remote.tier = AgentCacheTier::HostPinned;
    remote.reusable_tokens = 4_000_000;
    let mut first = status(1);
    first.reusable_tokens = 512;
    let request = signals(vec![remote, first, status(1)]);
    let asked = std::cell::Cell::new(0u32);
    let decision = request.decision_for_online(worker(1), 16, 500, number(1e9), |_| {
        asked.set(asked.get() + 1);
        true
    });
    assert_eq!(asked.get(), 2);
    assert_eq!(decision.action, CacheAction::LocalExactHit);
    assert_eq!(double(decision.cost.saved_prefill_blocks), 32.0);
}

#[test]
fn the_cheapest_offer_wins_and_ties_go_to_the_first() {
    let offer = |id: u64, tier: AgentCacheTier, lookup: f64| {
        let mut s = status(id);
        s.tier = tier;
        s.lookup_cost_blocks = Some(number(lookup));
        s
    };
    let request = signals(vec![
        offer(1, AgentCacheTier::External, 3.0),
        offer(2, AgentCacheTier::Disk, 2.0),
        offer(3, AgentCacheTier::HostPinned, 2.0),
        offer(4, AgentCacheTier::Device, 2.5),
    ]);
    let decision = request.decision_for(worker(9), 16, 500, number(1e9));
    assert_eq!(decision.action, CacheAction::RemoteRestore);
    assert_eq!(decision.tier, AgentCacheTier::Disk);
    assert_eq!(double(decision.cost.lookup_blocks), 2.0);
    let without = request.decision_for_online(worker(9), 16, 500, number(1e9), |w| {
        w.worker_id != 2
    });
    assert_eq!(without.tier, AgentCacheTier::HostPinned);
}

#[test]
fn the_last_rejection_is_reported() {
    let mut lagging = status(1);
    lagging.epoch = 2;
    let mut stale = status(2);
    stale.timestamp_ms = 0;
    assert_eq!(
        signals(vec![lagging.clone(), stale.clone()])
            .decision_for(worker(1), 16, 500, number(8.0))
            .fallback_reason,
        AgentCacheMissReason::Stale
    );
    assert_eq!(
        signals(vec![stale, lagging])
            .decision_for(worker(1), 16, 500, number(8.0))
            .fallback_reason,
        AgentCacheMissReason::EpochLag
    );
}

#[test]
fn offers_need_every_figure() {
    let mut full = status(1);
    full.tier = AgentCacheTier::HostPinned;
    let decide = |s: AgentCacheStatus| {
        signals(vec![s])
            .decision_for(worker(2), 16, 500, number(16.0))
            .action
    };
    assert_eq!(decide(full.clone()), CacheAction::RemoteRestore);
    let mut s = full.clone();
    s.transfer_bytes_per_block_cost = None;
    assert_eq!(decide(s), CacheAction::Recompute);
    let mut s = full.clone();
    s.lookup_cost_blocks = None;
    assert_eq!(decide(s), CacheAction::Recompute);
    let mut s = full.clone();
    s.restore_cost_blocks = None;
    assert_eq!(decide(s), CacheAction::Recompute);
    let mut s = full.clone();
    s.transfer_bytes_per_block_cost = Some(number(f64::MAX));
    assert_eq!(decide(s), CacheAction::Recompute);
}

#[test]
fn overflowing_charges_are_never_worth_it() {
    let mut s = status(1);
    s.tier = AgentCacheTier::HostPinned;
    s.lookup_cost_blocks = Some(number(f64::MAX));
    s.restore_cost_blocks = Some(number(f64::MAX));
    let decision = signals(vec![s]).decision_for(worker(2), 16, 500, number(16.0));
    assert_eq!(decision.action, CacheAction::Recompute);
    assert_eq!(decision.fallback_reason, AgentCacheMissReason::NoMiss);
}

#[test]
fn the_bound_is_never_negative() {
    for max in [0.0, -0.0, -3.0] {
        let decision = signals(vec![status(1)]).decision_for(worker(1), 16, 500, number(max));
        assert_eq!(decision.action, CacheAction::LocalExactHit);
        assert_eq!(double(decision.score_adjustment), 0.0);
        assert_eq!(double(decision.cost.total_blocks), -64.0);
    }
}

#[test]
fn a_hit_that_saves_no_more_than_its_risk_is_not_used() {
    let mut s = status(1);
    s.lifecycle = AgentCacheLifecycle::Cancelled;
    s.reusable_tokens = 32;
    let even = signals(vec![s.clone()]).decision_for(worker(1), 16, 500, number(8.0));
    assert_eq!(even.action, CacheAction::Recompute);
    assert_eq!(even.fallback_reason, AgentCacheMissReason::NoMiss);
    s.reusable_tokens = 33;
    let worth = signals(vec![s]).decision_for(worker(1), 16, 500, number(8.0));
    assert_eq!(worth.action, CacheAction::LocalExactHit);
    assert_eq!(double(worth.score_adjustment), -0.0625);
}

#[test]
fn decisions_compare_as_their_numbers_do() {
    let request = signals(vec![status(1)]);
    let one = request.decision_for(worker(1), 16, 500, number(0.0));
    let mut other = one;
    assert!(one == other);
    other.score_adjustment = number(0.0);
    assert!(one == other);
    other.cost.total_blocks = number(-63.0);
    assert!(one != other);
    let mut broken = one;
    broken.cost.queue_blocks = number(f64::NAN);
    assert!(broken != broken);
}

#[test]
fn offline_reports_make_no_difference() {
    let mut remote = status(2);
    remote.tier = AgentCacheTier::Disk;
    let mut tempting = status(1);
    tempting.reusable_tokens = 4_000_000;
    let mut hopeless = status(5);
    hopeless.epoch = 0;
    let up = |w: WorkerWithDpRank| w.worker_id == 2;
    let one = signals(vec![tempting, remote.clone()]).decision_for_online(
        worker(1),
        16,
        500,
        number(1e6),
        up,
    );
    let other = signals(vec![hopeless, remote]).decision_for_online(
        worker(1),
        16,
        500,
        number(1e6),
        up,
    );
    assert_eq!(one.action, CacheAction::RemoteRestore);
    assert!(one == other);
}

#[test]
fn the_bound_changes_the_adjustment_alone() {
    let request = signals(vec![status(1)]);
    let tight = request.decision_for(worker(1), 16, 500, number(0.25));
    let loose = request.decision_for(worker(1), 16, 500, number(1e9));
    assert_eq!(double(tight.score_adjustment), -0.25);
    assert_eq!(double(loose.score_adjustment), -64.0);
    assert!(loose.score_adjustment.is_less(tight.score_adjustment));
    let mut same = tight;
    same.score_adjustment = loose.score_adjustment;
    assert!(same == loose);
}

#[test]
fn riskier_offers_are_no_cheaper() {
    let total = |lifecycle: AgentCacheLifecycle, lookup: f64| {
        let mut s = status(1);
        s.tier = AgentCacheTier::External;
        s.lifecycle = lifecycle;
        s.lookup_cost_blocks = Some(number(lookup));
        s.reusable_tokens = 4_000_000;
        double(
            signals(vec![s])
                .decision_for(worker(2), 1, 500, number(1e9))
                .cost
                .total_blocks,
        )
    };
    assert!(
        total(AgentCacheLifecycle::Active, 1.0) < total(AgentCacheLifecycle::Cancelled, 1.0)
    );
    assert!(
        total(AgentCacheLifecycle::Unknown, 1.0) < total(AgentCacheLifecycle::Completed, 1.0)
    );
}

#[test]
fn an_expired_lease_evens_out_with_the_charge_for_leaving() {
    let mut request = signals(vec![status(1)]);
    request.soft_affinity_worker = Some(worker(9));
    let active = request.decision_for(worker(1), 16, 500, number(128.0));
    let mut expired = status(1);
    expired.lifecycle = AgentCacheLifecycle::ToolWaiting;
    expired.lease_expires_at_ms = Some(1_050);
    request.statuses = vec![expired];
    let waiting = request.decision_for(worker(1), 16, 500, number(128.0));
    assert_eq!(double(active.cost.total_blocks), -63.0);
    assert_eq!(double(waiting.cost.total_blocks), -63.0);
}

#[test]
fn time_is_relative_to_the_request() {
    let mut remote = status(2);
    remote.tier = AgentCacheTier::Disk;
    remote.lifecycle = AgentCacheLifecycle::ToolWaiting;
    remote.lease_expires_at_ms = Some(1_101);
    let mut stale = status(3);
    stale.timestamp_ms = 10;
    stale.lease_expires_at_ms = None;
    let request = signals(vec![stale, remote]);
    let one = request.decision_for(worker(1), 16, 500, number(1e6));
    assert_eq!(one.action, CacheAction::RemoteRestore);
    for by in [1u64, 77_777, u64::MAX - 1_101] {
        let mut later = request.clone();
        later.now_ms += by;
        for s in later.statuses.iter_mut() {
            s.timestamp_ms += by;
            s.lease_expires_at_ms = s.lease_expires_at_ms.map(|expiry| expiry + by);
        }
        assert!(one == later.decision_for(worker(1), 16, 500, number(1e6)));
    }
}

#[test]
fn offline_reports_can_be_taken_out() {
    let offer = |id: u64, lookup: f64| {
        let mut s = status(id);
        s.tier = AgentCacheTier::External;
        s.lookup_cost_blocks = Some(number(lookup));
        s
    };
    let up = |w: WorkerWithDpRank| w.worker_id % 2 == 0;
    let all = vec![offer(1, 0.0), offer(2, 3.0), offer(3, 0.5), offer(4, 2.0)];
    let kept: Vec<AgentCacheStatus> = all.iter().filter(|s| up(s.worker)).cloned().collect();
    assert_eq!(kept.len(), 2);
    let one = signals(all).decision_for_online(worker(9), 16, 500, number(1e6), up);
    let other = signals(kept).decision_for_online(worker(9), 16, 500, number(1e6), up);
    assert_eq!(double(one.cost.lookup_blocks), 2.0);
    assert!(one == other);

    let none = signals(vec![offer(1, 0.0)]).decision_for_online(
        worker(9),
        16,
        500,
        number(1e6),
        up,
    );
    let empty = signals(vec![]).decision_for_online(worker(9), 16, 500, number(1e6), up);
    assert_eq!(none.action, empty.action);
    assert_eq!(none.tier, empty.tier);
    assert!(none.score_adjustment == empty.score_adjustment);
    assert!(none.cost == empty.cost);
    assert_eq!(none.fallback_reason, AgentCacheMissReason::WorkerOffline);
    assert_eq!(
        empty.fallback_reason,
        AgentCacheMissReason::InsufficientData
    );
}

#[test]
fn restoring_costs_no_less_than_using_in_place() {
    let mut s = status(1);
    s.lookup_cost_blocks = Some(number(0.0));
    s.restore_cost_blocks = Some(number(0.0));
    s.transfer_bytes_per_block_cost = Some(number(0.0));
    let request = signals(vec![s]);
    let here = request.decision_for(worker(1), 16, 500, number(1e6)).cost;
    let there = request.decision_for(worker(2), 16, 500, number(1e6)).cost;
    assert_eq!(here.action, CacheAction::LocalExactHit);
    assert_eq!(there.action, CacheAction::RemoteRestore);
    assert_eq!(double(here.total_blocks), -64.0);
    assert_eq!(double(there.total_blocks), -63.5);
    assert!(here.saved_prefill_blocks == there.saved_prefill_blocks);
    assert!(here.affinity_break_blocks == there.affinity_break_blocks);
}

#[test]
fn an_expired_lease_decays_where_no_lease_runs() {
    let mut active = status(1);
    active.lease_expires_at_ms = None;
    let mut expired = active.clone();
    expired.lifecycle = AgentCacheLifecycle::ToolWaiting;
    expired.lease_expires_at_ms = Some(1_050);
    let total = |s: AgentCacheStatus| {
        let mut request = signals(vec![s]);
        request.soft_affinity_worker = Some(worker(9));
        double(
            request
                .decision_for(worker(1), 16, 500, number(128.0))
                .cost
                .total_blocks,
        )
    };
    assert_eq!(total(active), -64.0);
    assert_eq!(total(expired), -63.0);
}
