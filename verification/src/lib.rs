//! Spread arbitrage between the exchanges of HyperEVM and the order book of HyperLiquid.
//!
//! The library decides: what the markets offer, whether a difference pays, what to send, and what
//! to make of every answer. It does no input or output; each decision is a value that a program
//! carries out.
pub mod bignum;
pub mod double;
pub mod text;
pub mod decimal;
pub mod types;
pub mod metrics;
pub mod liquid;
pub mod evm;
pub mod config;
pub mod actors;
pub mod db;
