//! The parts that run side by side, reduced to what they decide.
pub mod arb_engine;
pub mod backoff;
pub mod evm_trader;
pub mod evm_watcher;
pub mod liquid_trader;
pub mod orderbook_watcher;
pub mod price_db;
pub mod pricing;
pub mod supervisor;
