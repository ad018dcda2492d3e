//! The configuration and the rules that it must meet.
//!
//! Settings are read one after another, then checked one after another; the first fault found is
//! the one reported.
use vstd::prelude::*;


pub mod faults;
pub mod readers;
pub mod pair;
pub mod global;
pub mod redaction;
pub mod keys;
pub mod laws;

pub use crate::config::faults::{ConfigError, Fault};
pub use crate::config::pair::PairConfig;
pub use crate::config::global::Config;

verus! {

/// The confirmation without which live trading does not start.
pub const LIVE_TRADING_ACK: &'static str = "I_UNDERSTAND_THE_RISK";

/// The address of USDC on HyperEVM, the token0 of every pair.
pub const HYPEREVM_USDC_ADDRESS: &'static str = "0xb8ce59fc3717ada4c02eadf9682a9e934f625ebb";

/// Where settings come from.
pub trait ConfigSource {
    /// The value under a key. What it is, each source says for itself.
    open spec fn lookup(&self, key: Seq<char>) -> Option<Seq<char>> {
        arbitrary()
    }

    fn get(&self, key: &str) -> (value: Option<String>)
        ensures
            match value {
                Some(text) => self.lookup(key@) == Some(text@),
                None => self.lookup(key@) is None,
            },
    ;
}

} // verus!
