//! Cache-aware routing of agent requests.
//!
//! Inference workers report which prompt prefixes they hold. For a request and
//! a worker, this library decides whether the prefix is used where it lies,
//! restored from elsewhere, or computed anew, and by how much the router's own
//! score is adjusted. Reports that are malformed, stale, behind the expected
//! epoch, from offline workers or not backed by a physical copy never lower a
//! score.
//!
//! Costs are binary64 numbers, held by their bits and rounded as IEEE 754 says.
pub mod binary64;
pub mod cost;
pub mod decision;
pub mod digest;
pub mod invariance;
pub mod inventory;
pub mod laws;
pub mod numbers;
pub mod outcomes;
pub mod promises;
pub mod rounding;
pub mod routing;

pub use binary64::Binary64;
pub use cost::{CacheAction, CacheActionCost};
pub use decision::AgentCacheDecision;
pub use inventory::{
    AgentCacheLifecycle, AgentCacheMissReason, AgentCacheRoutingSignals, AgentCacheStatus,
    AgentCacheTier, WorkerWithDpRank,
};
