//! Eth-namespace serving layer: configuration values, the block cache with
//! single-flight fetching, the fee-history window, the gas price estimator,
//! poll-style filters, push-style subscriptions and the supervision of the
//! background tasks that feed them.

pub mod types;
pub mod config;
pub mod block_cache;
pub mod fee_history;
pub mod gas_oracle;
pub mod filters;
pub mod pubsub;
pub mod eth;
