//! The order book exchange.
pub mod client;
pub mod markets;
pub mod replies;
pub mod values;
pub mod laws;
