//! Order router, simulated broker and multi-account dispatch.

pub mod account_manager;
pub mod idempotency;
mod rng;
pub mod router;
pub mod reconciliation;
pub mod sim_broker;

pub use account_manager::{AccountId, AccountManager, AggregateSnapshot};
pub use idempotency::IdempotencyGuard;
pub use router::OrderRouter;
pub use sim_broker::{OpenPosition, SimBroker, SimBrokerConfig};
