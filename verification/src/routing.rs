//! Which cached prefix, if any, a request is routed by.

use vstd::prelude::*;

use crate::binary64::Binary64;
use crate::cost::CacheActionCost;
use crate::decision::AgentCacheDecision;
use crate::inventory::{
    AgentCacheMissReason, AgentCacheRoutingSignals, AgentCacheStatus, AgentCacheTier,
    WorkerWithDpRank,
};

verus! {

/// Whether an offer is to be preferred to the best one so far.
spec fn takes_over(
    best: Option<(CacheActionCost, AgentCacheTier)>,
    offered: Option<CacheActionCost>,
) -> bool {
    offered matches Some(cost) && (best matches Some((current, _)) ==> cost.total_blocks.below(
        current.total_blocks,
    ))
}

/// The better of the best offer so far and another one.
fn cheaper(
    best: Option<(CacheActionCost, AgentCacheTier)>,
    offered: Option<CacheActionCost>,
    tier: AgentCacheTier,
) -> (chosen: Option<(CacheActionCost, AgentCacheTier)>)
    ensures
        chosen == (if takes_over(best, offered) {
            Some((offered->0, tier))
        } else {
            best
        }),
{
    match offered {
        None => best,
        Some(cost) => match best {
            None => Some((cost, tier)),
            Some((current, _)) => {
                if cost.total_blocks.is_less(current.total_blocks) {
                    Some((cost, tier))
                } else {
                    best
                }
            },
        },
    }
}

impl AgentCacheRoutingSignals {
    /// Why the report at `i` is left out, given whether each report's worker is
    /// online, or `None` where it is taken into account.
    pub open spec fn rejection(self, ttl: u64, online: Seq<bool>, i: int) -> Option<
        AgentCacheMissReason,
    > {
        if !online[i] {
            Some(AgentCacheMissReason::WorkerOffline)
        } else {
            match self.statuses@[i].verdict(self, ttl) {
                Ok(()) => None,
                Err(reason) => Some(reason),
            }
        }
    }

    /// Whether the report at `i` puts the prefix on the worker's own device.
    pub open spec fn local_hit(
        self,
        worker: WorkerWithDpRank,
        ttl: u64,
        online: Seq<bool>,
        i: int,
    ) -> bool {
        &&& 0 <= i < self.statuses@.len()
        &&& self.rejection(ttl, online, i) is None
        &&& self.statuses@[i].worker == worker
        &&& self.statuses@[i].tier == AgentCacheTier::Device
    }

    /// What restoring the prefix from the report at `i` would cost, where that
    /// is possible.
    pub open spec fn offer(
        self,
        worker: WorkerWithDpRank,
        block_size: u32,
        ttl: u64,
        online: Seq<bool>,
        i: int,
    ) -> Option<CacheActionCost> {
        if 0 <= i < self.statuses@.len() && self.rejection(ttl, online, i) is None {
            self.statuses@[i].remote(block_size, self, worker)
        } else {
            None
        }
    }

    /// Whether the report at `k` is the first local hit.
    pub open spec fn first_local_hit(
        self,
        worker: WorkerWithDpRank,
        ttl: u64,
        online: Seq<bool>,
        k: int,
    ) -> bool {
        &&& self.local_hit(worker, ttl, online, k)
        &&& forall|j: int| 0 <= j < k ==> !self.local_hit(worker, ttl, online, j)
    }

    /// Whether no report is a local hit.
    pub open spec fn no_local_hit(
        self,
        worker: WorkerWithDpRank,
        ttl: u64,
        online: Seq<bool>,
    ) -> bool {
        forall|j: int| !self.local_hit(worker, ttl, online, j)
    }

    /// Whether the report at `k` makes the cheapest offer, and is the first to
    /// do so.
    pub open spec fn best_offer(
        self,
        worker: WorkerWithDpRank,
        block_size: u32,
        ttl: u64,
        online: Seq<bool>,
        k: int,
    ) -> bool {
        &&& self.offer(worker, block_size, ttl, online, k) is Some
        &&& forall|j: int|
            (#[trigger] self.offer(worker, block_size, ttl, online, j)) is Some && j != k ==> {
                let this = self.offer(worker, block_size, ttl, online, k)->0.total_blocks;
                let that = self.offer(worker, block_size, ttl, online, j)->0.total_blocks;
                if j < k {
                    this.below(that)
                } else {
                    !that.below(this)
                }
            }
    }

    /// Whether no report makes an offer.
    pub open spec fn no_offer(
        self,
        worker: WorkerWithDpRank,
        block_size: u32,
        ttl: u64,
        online: Seq<bool>,
    ) -> bool {
        forall|j: int| (#[trigger] self.offer(worker, block_size, ttl, online, j)) is None
    }

    /// Whether the report at `k` is the last one that is left out.
    pub open spec fn last_rejection(self, ttl: u64, online: Seq<bool>, k: int) -> bool {
        &&& 0 <= k < self.statuses@.len()
        &&& self.rejection(ttl, online, k) is Some
        &&& forall|j: int|
            k < j < self.statuses@.len() ==> (#[trigger] self.rejection(ttl, online, j)) is None
    }

    /// Whether no report is left out.
    pub open spec fn no_rejection(self, ttl: u64, online: Seq<bool>) -> bool {
        forall|j: int|
            0 <= j < self.statuses@.len() ==> (#[trigger] self.rejection(ttl, online, j)) is None
    }

    /// Whether the reports are looked at at all.
    pub open spec fn usable(self, block_size: u32, max: Binary64) -> bool {
        self.valid() && block_size != 0 && max.finite()
    }

    /// Whether `decision` is the right one for `worker`, given whether each
    /// report's worker is online.
    ///
    /// The first local hit is weighed against computing the prefix anew. Where
    /// there is none, the cheapest offer is. Where there is none of those
    /// either, the prefix is computed anew, and the reason given is that of the
    /// last report that was left out.
    pub open spec fn decides(
        self,
        worker: WorkerWithDpRank,
        block_size: u32,
        ttl: u64,
        max: Binary64,
        online: Seq<bool>,
        decision: AgentCacheDecision,
    ) -> bool {
        let insufficient = AgentCacheDecision::recomputing(AgentCacheMissReason::InsufficientData);
        if !self.usable(block_size, max) {
            decision == insufficient
        } else {
            &&& forall|k: int| #[trigger]
                self.first_local_hit(worker, ttl, online, k) ==> decision
                    == AgentCacheDecision::weighing(
                    self.statuses@[k].local(block_size, self, worker),
                    self.statuses@[k].tier,
                    max,
                )
            &&& self.no_local_hit(worker, ttl, online) ==> {
                &&& forall|k: int| #[trigger]
                    self.best_offer(worker, block_size, ttl, online, k) ==> decision
                        == AgentCacheDecision::weighing(
                        self.offer(worker, block_size, ttl, online, k)->0,
                        self.statuses@[k].tier,
                        max,
                    )
                &&& self.no_offer(worker, block_size, ttl, online) ==> {
                    &&& forall|k: int| #[trigger]
                        self.last_rejection(ttl, online, k) ==> decision
                            == AgentCacheDecision::recomputing(
                            self.rejection(ttl, online, k)->0,
                        )
                    &&& self.no_rejection(ttl, online) ==> decision == insufficient
                }
            }
        }
    }

    /// Whether `online` holds an answer for each report, and those are answers
    /// that `is_online` gave, up to the first local hit.
    pub open spec fn answers<F: Fn(WorkerWithDpRank) -> bool>(
        self,
        worker: WorkerWithDpRank,
        ttl: u64,
        is_online: F,
        online: Seq<bool>,
    ) -> bool {
        &&& online.len() == self.statuses@.len()
        &&& forall|i: int|
            0 <= i < online.len() && (forall|j: int|
                0 <= j < i ==> !self.local_hit(worker, ttl, online, j)) ==> call_ensures(
                is_online,
                (self.statuses@[i].worker,),
                #[trigger] online[i],
            )
    }

    /// The answers that a predicate on workers gives.
    pub open spec fn liveness(self, up: spec_fn(WorkerWithDpRank) -> bool) -> Seq<bool> {
        Seq::new(self.statuses@.len(), |i: int| up(self.statuses@[i].worker))
    }

    /// Where there is a local hit, there is a first one.
    pub proof fn lemma_first_local_hit(
        self,
        worker: WorkerWithDpRank,
        ttl: u64,
        online: Seq<bool>,
        i: int,
    ) -> (k: int)
        requires
            self.local_hit(worker, ttl, online, i),
        ensures
            k <= i,
            self.first_local_hit(worker, ttl, online, k),
        decreases i,
    {
        if exists|j: int| 0 <= j < i && self.local_hit(worker, ttl, online, j) {
            let j = choose|j: int| 0 <= j < i && self.local_hit(worker, ttl, online, j);
            self.lemma_first_local_hit(worker, ttl, online, j)
        } else {
            i
        }
    }

    /// What is answered after the first local hit does not matter: the decision
    /// is the same for every two sequences of answers that agree up to there.
    pub proof fn law_answers_after_local_hit(
        self,
        worker: WorkerWithDpRank,
        block_size: u32,
        ttl: u64,
        max: Binary64,
        online: Seq<bool>,
        other: Seq<bool>,
        decision: AgentCacheDecision,
    )
        requires
            online.len() == self.statuses@.len(),
            other.len() == self.statuses@.len(),
            forall|i: int|
                0 <= i < online.len() && (forall|j: int|
                    0 <= j < i ==> !self.local_hit(worker, ttl, online, j)) ==> (
                #[trigger] online[i]) == other[i],
            self.decides(worker, block_size, ttl, max, online, decision),
        ensures
            self.decides(worker, block_size, ttl, max, other, decision),
    {
        if self.no_local_hit(worker, ttl, online) {
            assert(online =~= other);
        } else {
            let i = choose|i: int| self.local_hit(worker, ttl, online, i);
            let k = self.lemma_first_local_hit(worker, ttl, online, i);
            assert forall|j: int| 0 <= j <= k implies (#[trigger] self.local_hit(
                worker,
                ttl,
                other,
                j,
            )) == self.local_hit(worker, ttl, online, j) by {
                assert(online[j] == other[j]);
            }
            assert(self.local_hit(worker, ttl, other, k));
            assert(self.first_local_hit(worker, ttl, other, k));
            assert forall|m: int| #[trigger] self.first_local_hit(worker, ttl, other, m) implies m
                == k by {
                assert(self.local_hit(worker, ttl, other, k));
            }
        }
    }

    /// A function that computes a predicate on workers decides by it.
    pub proof fn law_liveness_predicate<F: Fn(WorkerWithDpRank) -> bool>(
        self,
        worker: WorkerWithDpRank,
        block_size: u32,
        ttl: u64,
        max: Binary64,
        is_online: F,
        up: spec_fn(WorkerWithDpRank) -> bool,
        decision: AgentCacheDecision,
    )
        requires
            forall|w: WorkerWithDpRank, answer: bool| #[trigger]
                call_ensures(is_online, (w,), answer) ==> answer == up(w),
            exists|online: Seq<bool>| #[trigger]
                self.answers(worker, ttl, is_online, online) && self.decides(
                    worker,
                    block_size,
                    ttl,
                    max,
                    online,
                    decision,
                ),
        ensures
            self.decides(worker, block_size, ttl, max, self.liveness(up), decision),
    {
        let online = choose|online: Seq<bool>| #[trigger]
            self.answers(worker, ttl, is_online, online) && self.decides(
                worker,
                block_size,
                ttl,
                max,
                online,
                decision,
            );
        self.law_answers_after_local_hit(
            worker,
            block_size,
            ttl,
            max,
            online,
            self.liveness(up),
            decision,
        );
    }

    /// What is known of the reports that `online` answers for: none is a local
    /// hit, `best` is the cheapest offer among them, made at `best_at`, and
    /// `reason` is why the one at `rejected_at`, the last that was left out, was.
    #[verifier::opaque]
    spec fn scanned(
        self,
        worker: WorkerWithDpRank,
        block_size: u32,
        ttl: u64,
        online: Seq<bool>,
        best: Option<(CacheActionCost, AgentCacheTier)>,
        best_at: int,
        reason: AgentCacheMissReason,
        rejected_at: int,
    ) -> bool {
        let n = online.len() as int;
        &&& n <= self.statuses@.len()
        &&& forall|j: int| 0 <= j < n ==> !self.local_hit(worker, ttl, online, j)
        &&& forall|j: int|
            0 <= j < n ==> ((#[trigger] self.offer(worker, block_size, ttl, online, j)) matches Some(
                cost,
            ) ==> !cost.total_blocks.nan())
        &&& match best {
            None => forall|j: int|
                0 <= j < n ==> (#[trigger] self.offer(worker, block_size, ttl, online, j)) is None,
            Some((cost, tier)) => {
                &&& 0 <= best_at < n
                &&& self.offer(worker, block_size, ttl, online, best_at) == Some(cost)
                &&& self.statuses@[best_at].tier == tier
                &&& forall|j: int|
                    0 <= j < n && j != best_at && (#[trigger] self.offer(
                        worker,
                        block_size,
                        ttl,
                        online,
                        j,
                    )) is Some ==> {
                        let that = self.offer(worker, block_size, ttl, online, j)->0.total_blocks;
                        if j < best_at {
                            cost.total_blocks.below(that)
                        } else {
                            !that.below(cost.total_blocks)
                        }
                    }
            },
        }
        &&& -1 <= rejected_at < n
        &&& if rejected_at < 0 {
            reason == AgentCacheMissReason::InsufficientData
        } else {
            self.rejection(ttl, online, rejected_at) == Some(reason)
        }
        &&& forall|j: int|
            rejected_at < j < n ==> (#[trigger] self.rejection(ttl, online, j)) is None
    }

    /// One more answer leaves what the earlier reports say as it was.
    proof fn lemma_one_more(
        self,
        worker: WorkerWithDpRank,
        block_size: u32,
        ttl: u64,
        online: Seq<bool>,
        answer: bool,
    )
        ensures
            forall|j: int|
                0 <= j < online.len() ==> (#[trigger] self.rejection(ttl, online.push(answer), j))
                    == self.rejection(ttl, online, j),
            forall|j: int|
                0 <= j < online.len() ==> (#[trigger] self.local_hit(
                    worker,
                    ttl,
                    online.push(answer),
                    j,
                )) == self.local_hit(worker, ttl, online, j),
            forall|j: int|
                0 <= j < online.len() ==> (#[trigger] self.offer(
                    worker,
                    block_size,
                    ttl,
                    online.push(answer),
                    j,
                )) == self.offer(worker, block_size, ttl, online, j),
    {
        assert forall|j: int| 0 <= j < online.len() implies (#[trigger] self.rejection(
            ttl,
            online.push(answer),
            j,
        )) == self.rejection(ttl, online, j) by {
            assert(online.push(answer)[j] == online[j]);
        }
    }

    /// A report that is left out becomes the last one that was.
    proof fn lemma_rejected(
        self,
        worker: WorkerWithDpRank,
        block_size: u32,
        ttl: u64,
        online: Seq<bool>,
        answer: bool,
        best: Option<(CacheActionCost, AgentCacheTier)>,
        best_at: int,
        reason: AgentCacheMissReason,
    )
        requires
            online.len() < self.statuses@.len(),
            exists|earlier: AgentCacheMissReason, rejected_at: int|
                self.scanned(
                    worker,
                    block_size,
                    ttl,
                    online,
                    best,
                    best_at,
                    earlier,
                    rejected_at,
                ),
            self.rejection(ttl, online.push(answer), online.len() as int) == Some(reason),
        ensures
            self.scanned(
                worker,
                block_size,
                ttl,
                online.push(answer),
                best,
                best_at,
                reason,
                online.len() as int,
            ),
    {
        reveal(AgentCacheRoutingSignals::scanned);
        self.lemma_one_more(worker, block_size, ttl, online, answer);
    }

    /// A report that is taken into account takes over if its offer is cheaper.
    proof fn lemma_accepted(
        self,
        worker: WorkerWithDpRank,
        block_size: u32,
        ttl: u64,
        online: Seq<bool>,
        best: Option<(CacheActionCost, AgentCacheTier)>,
        best_at: int,
        reason: AgentCacheMissReason,
        rejected_at: int,
    )
        requires
            online.len() < self.statuses@.len(),
            self.scanned(
                worker,
                block_size,
                ttl,
                online,
                best,
                best_at,
                reason,
                rejected_at,
            ),
            self.rejection(ttl, online.push(true), online.len() as int) is None,
            !self.local_hit(worker, ttl, online.push(true), online.len() as int),
            self.statuses@[online.len() as int].remote(block_size, self, worker) matches Some(
                cost,
            ) ==> !cost.total_blocks.nan(),
        ensures
            ({
                let status = self.statuses@[online.len() as int];
                let offered = status.remote(block_size, self, worker);
                self.scanned(
                    worker,
                    block_size,
                    ttl,
                    online.push(true),
                    if takes_over(best, offered) {
                        Some((offered->0, status.tier))
                    } else {
                        best
                    },
                    if takes_over(best, offered) {
                        online.len() as int
                    } else {
                        best_at
                    },
                    reason,
                    rejected_at,
                )
            }),
    {
        reveal(AgentCacheRoutingSignals::scanned);
        self.lemma_one_more(worker, block_size, ttl, online, true);
        assert(self.offer(worker, block_size, ttl, online.push(true), online.len() as int)
            == self.statuses@[online.len() as int].remote(block_size, self, worker));
    }

    /// A scan of every report settles the decision.
    proof fn lemma_decided_by_scan<F: Fn(WorkerWithDpRank) -> bool>(
        self,
        worker: WorkerWithDpRank,
        block_size: u32,
        ttl: u64,
        max: Binary64,
        is_online: F,
        online: Seq<bool>,
        best: Option<(CacheActionCost, AgentCacheTier)>,
        best_at: int,
        reason: AgentCacheMissReason,
        rejected_at: int,
    )
        requires
            self.usable(block_size, max),
            online.len() == self.statuses@.len(),
            self.scanned(
                worker,
                block_size,
                ttl,
                online,
                best,
                best_at,
                reason,
                rejected_at,
            ),
            forall|j: int|
                0 <= j < online.len() ==> call_ensures(
                    is_online,
                    (self.statuses@[j].worker,),
                    #[trigger] online[j],
                ),
        ensures
            self.answers(worker, ttl, is_online, online),
            self.decides(
                worker,
                block_size,
                ttl,
                max,
                online,
                match best {
                    Some((cost, tier)) => AgentCacheDecision::weighing(cost, tier, max),
                    None => AgentCacheDecision::recomputing(reason),
                },
            ),
    {
        reveal(AgentCacheRoutingSignals::scanned);
        assert forall|k: int| #[trigger]
            self.best_offer(worker, block_size, ttl, online, k) implies best is Some && k
            == best_at by {
            assert(self.offer(worker, block_size, ttl, online, best_at) is Some);
        }
        if best is Some {
            assert(self.offer(worker, block_size, ttl, online, best_at) is Some);
        }
        assert forall|k: int| #[trigger] self.last_rejection(ttl, online, k) implies k
            == rejected_at by {
            if rejected_at >= 0 {
                assert(self.rejection(ttl, online, rejected_at) is Some);
            }
        }
        if rejected_at >= 0 {
            assert(self.rejection(ttl, online, rejected_at) is Some);
        }
    }

    /// Answers up to a first local hit settle the decision.
    proof fn lemma_decided_by_local_hit<F: Fn(WorkerWithDpRank) -> bool>(
        self,
        worker: WorkerWithDpRank,
        block_size: u32,
        ttl: u64,
        max: Binary64,
        is_online: F,
        online: Seq<bool>,
    )
        requires
            self.usable(block_size, max),
            0 < online.len() <= self.statuses@.len(),
            self.first_local_hit(worker, ttl, online, online.len() - 1),
            forall|j: int|
                0 <= j < online.len() ==> call_ensures(
                    is_online,
                    (self.statuses@[j].worker,),
                    #[trigger] online[j],
                ),
        ensures
            exists|full: Seq<bool>| #[trigger]
                self.answers(worker, ttl, is_online, full) && self.decides(
                    worker,
                    block_size,
                    ttl,
                    max,
                    full,
                    AgentCacheDecision::weighing(
                        self.statuses@[online.len() - 1].local(block_size, self, worker),
                        self.statuses@[online.len() - 1].tier,
                        max,
                    ),
                ),
    {
        let k = online.len() - 1;
        let full = online + Seq::new((self.statuses@.len() - online.len()) as nat, |i: int| false);
        assert forall|j: int| 0 <= j <= k implies (#[trigger] self.local_hit(worker, ttl, full, j))
            == self.local_hit(worker, ttl, online, j) by {
            assert(full[j] == online[j]);
        }
        assert forall|i: int|
            0 <= i < full.len() && (forall|j: int|
                0 <= j < i ==> !self.local_hit(worker, ttl, full, j)) implies call_ensures(
            is_online,
            (self.statuses@[i].worker,),
            #[trigger] full[i],
        ) by {
            if i > k {
                assert(self.local_hit(worker, ttl, full, k));
            } else {
                assert(full[i] == online[i]);
            }
        }
        assert(self.answers(worker, ttl, is_online, full));
        assert forall|m: int| #[trigger] self.first_local_hit(worker, ttl, full, m) implies m
            == k by {
            assert(self.local_hit(worker, ttl, full, k));
        }
        assert(!self.no_local_hit(worker, ttl, full)) by {
            assert(self.local_hit(worker, ttl, full, k));
        }
    }

    /// Variant used by the scheduler to reject inventory from workers that are
    /// no longer registered. Keeping liveness outside the wire payload prevents
    /// a stale producer from declaring itself online.
    pub fn decision_for_online<F>(
        &self,
        worker: WorkerWithDpRank,
        block_size: u32,
        inventory_ttl_ms: u64,
        max_adjustment_blocks: Binary64,
        is_online: F,
    ) -> (decision: AgentCacheDecision) where F: Fn(WorkerWithDpRank) -> bool
        requires
            self.usable(block_size, max_adjustment_blocks) ==> forall|i: int|
                0 <= i < self.statuses@.len() ==> call_requires(
                    is_online,
                    ((#[trigger] self.statuses@[i]).worker,),
                ),
        ensures
            self.usable(block_size, max_adjustment_blocks) ==> exists|online: Seq<bool>| #[trigger]
                self.answers(worker, inventory_ttl_ms, is_online, online) && self.decides(
                    worker,
                    block_size,
                    inventory_ttl_ms,
                    max_adjustment_blocks,
                    online,
                    decision,
                ),
            !self.usable(block_size, max_adjustment_blocks) ==> decision
                == AgentCacheDecision::recomputing(AgentCacheMissReason::InsufficientData),
    {
        if !self.is_valid() || block_size == 0 || !max_adjustment_blocks.is_finite() {
            return AgentCacheDecision::fallback(
                CacheActionCost::recompute(),
                AgentCacheMissReason::InsufficientData,
            );
        }
        let ghost mut online: Seq<bool> = Seq::empty();
        let ghost mut best_at: int = -1;
        let ghost mut rejected_at: int = -1;
        let mut fallback_reason: AgentCacheMissReason = AgentCacheMissReason::InsufficientData;
        let mut best: Option<(CacheActionCost, AgentCacheTier)> = None;
        let mut i: usize = 0;
        assert(self.scanned(
            worker,
            block_size,
            inventory_ttl_ms,
            online,
            best,
            best_at,
            fallback_reason,
            rejected_at,
        )) by {
            reveal(AgentCacheRoutingSignals::scanned);
        }
        while i < self.statuses.len()
            invariant
                i <= self.statuses@.len(),
                online.len() == i,
                block_size > 0,
                self.usable(block_size, max_adjustment_blocks),
                forall|j: int|
                    0 <= j < self.statuses@.len() ==> call_requires(
                        is_online,
                        ((#[trigger] self.statuses@[j]).worker,),
                    ),
                forall|j: int|
                    0 <= j < i ==> call_ensures(
                        is_online,
                        (self.statuses@[j].worker,),
                        #[trigger] online[j],
                    ),
                self.scanned(
                    worker,
                    block_size,
                    inventory_ttl_ms,
                    online,
                    best,
                    best_at,
                    fallback_reason,
                    rejected_at,
                ),
            decreases self.statuses@.len() - i,
        {
            let status: &AgentCacheStatus = &self.statuses[i];
            let is_up: bool = is_online(status.worker);
            let ghost seen = online;
            proof {
                online = online.push(is_up);
            }
            if !is_up {
                fallback_reason = AgentCacheMissReason::WorkerOffline;
                proof {
                    self.lemma_rejected(
                        worker,
                        block_size,
                        inventory_ttl_ms,
                        seen,
                        is_up,
                        best,
                        best_at,
                        fallback_reason,
                    );
                    rejected_at = i as int;
                }
            } else {
                match status.validate_for(self, inventory_ttl_ms) {
                    Err(reason) => {
                        fallback_reason = reason;
                        proof {
                            self.lemma_rejected(
                                worker,
                                block_size,
                                inventory_ttl_ms,
                                seen,
                                is_up,
                                best,
                                best_at,
                                fallback_reason,
                            );
                            rejected_at = i as int;
                        }
                    },
                    Ok(()) => {
                        if status.worker == worker && status.tier == AgentCacheTier::Device {
                            let cost: CacheActionCost = status.local_cost(
                                block_size,
                                self,
                                worker,
                            );
                            proof {
                                assert(self.first_local_hit(
                                    worker,
                                    inventory_ttl_ms,
                                    online,
                                    i as int,
                                )) by {
                                    reveal(AgentCacheRoutingSignals::scanned);
                                    self.lemma_one_more(
                                        worker,
                                        block_size,
                                        inventory_ttl_ms,
                                        seen,
                                        is_up,
                                    );
                                }
                                self.lemma_decided_by_local_hit(
                                    worker,
                                    block_size,
                                    inventory_ttl_ms,
                                    max_adjustment_blocks,
                                    is_online,
                                    online,
                                );
                            }
                            return AgentCacheDecision::weigh(
                                cost,
                                status.tier,
                                max_adjustment_blocks,
                            );
                        }
                        let offered: Option<CacheActionCost> = status.remote_cost(
                            block_size,
                            self,
                            worker,
                        );
                        let better: Option<(CacheActionCost, AgentCacheTier)> = cheaper(
                            best,
                            offered,
                            status.tier,
                        );
                        proof {
                            self.lemma_accepted(
                                worker,
                                block_size,
                                inventory_ttl_ms,
                                seen,
                                best,
                                best_at,
                                fallback_reason,
                                rejected_at,
                            );
                            if takes_over(best, offered) {
                                best_at = i as int;
                            }
                        }
                        best = better;
                    },
                }
            }
            i = i + 1;
        }
        proof {
            self.lemma_decided_by_scan(
                worker,
                block_size,
                inventory_ttl_ms,
                max_adjustment_blocks,
                is_online,
                online,
                best,
                best_at,
                fallback_reason,
                rejected_at,
            );
        }
        match best {
            Some((cost, tier)) => AgentCacheDecision::weigh(cost, tier, max_adjustment_blocks),
            None => AgentCacheDecision::fallback(CacheActionCost::recompute(), fallback_reason),
        }
    }

    /// Compare local reuse, remote restore, and ordinary prefill without
    /// replacing the router's own queue and load score. Missing or untrusted
    /// data yields a zero adjustment.
    pub fn decision_for(
        &self,
        worker: WorkerWithDpRank,
        block_size: u32,
        inventory_ttl_ms: u64,
        max_adjustment_blocks: Binary64,
    ) -> (decision: AgentCacheDecision)
        ensures
            self.decides(
                worker,
                block_size,
                inventory_ttl_ms,
                max_adjustment_blocks,
                self.liveness(|w: WorkerWithDpRank| true),
                decision,
            ),
    {
        let always = |w: WorkerWithDpRank| -> (up: bool)
            ensures
                up,
            { true };
        let decision: AgentCacheDecision = self.decision_for_online(
            worker,
            block_size,
            inventory_ttl_ms,
            max_adjustment_blocks,
            always,
        );
        proof {
            if self.usable(block_size, max_adjustment_blocks) {
                self.law_liveness_predicate(
                    worker,
                    block_size,
                    inventory_ttl_ms,
                    max_adjustment_blocks,
                    always,
                    |w: WorkerWithDpRank| true,
                    decision,
                );
            }
        }
        decision
    }
}

} // verus!
