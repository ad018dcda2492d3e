//! Values that pass between the parts of the system.
pub mod commands;
pub mod market;
