//! The chain.
use vstd::prelude::*;

use crate::double::Double;

pub mod address;
pub mod amounts;
pub mod client;

verus! {

/// Whether a quote can be used: every choice between quotes asks this first.
pub fn is_valid_quote(value: Double) -> (valid: bool)
    ensures
        valid == value.positive(),
{
    value.is_positive()
}

} // verus!
