//! The numbers that the trading rules are written with, by their bit patterns.
use vstd::prelude::*;

use crate::double::Double;

verus! {

impl Double {
    /// 0
    #[verifier::allow_in_spec]
    pub fn nought() -> Double
        returns
            (Double { bits: 0 }),
    {
        Double { bits: 0 }
    }

    /// 1
    #[verifier::allow_in_spec]
    pub fn one() -> Double
        returns
            (Double { bits: 0x3ff0_0000_0000_0000 }),
    {
        Double { bits: 0x3ff0_0000_0000_0000 }
    }

    /// 100
    #[verifier::allow_in_spec]
    pub fn hundred() -> Double
        returns
            (Double { bits: 0x4059_0000_0000_0000 }),
    {
        Double { bits: 0x4059_0000_0000_0000 }
    }

    /// 10000, the number of basis points in one.
    #[verifier::allow_in_spec]
    pub fn basis_points() -> Double
        returns
            (Double { bits: 0x40c3_8800_0000_0000 }),
    {
        Double { bits: 0x40c3_8800_0000_0000 }
    }

    /// 10^15
    #[verifier::allow_in_spec]
    pub fn quadrillion() -> Double
        returns
            (Double { bits: 0x430c_6bf5_2634_0000 }),
    {
        Double { bits: 0x430c_6bf5_2634_0000 }
    }

    /// 10^-9
    #[verifier::allow_in_spec]
    pub fn billionth() -> Double
        returns
            (Double { bits: 0x3e11_2e0b_e826_d695 }),
    {
        Double { bits: 0x3e11_2e0b_e826_d695 }
    }

    /// 10^-10
    #[verifier::allow_in_spec]
    pub fn tenth_of_billionth() -> Double
        returns
            (Double { bits: 0x3ddb_7cdf_d9d7_bdbb }),
    {
        Double { bits: 0x3ddb_7cdf_d9d7_bdbb }
    }

    /// 10^-12
    #[verifier::allow_in_spec]
    pub fn trillionth() -> Double
        returns
            (Double { bits: 0x3d71_9799_812d_ea11 }),
    {
        Double { bits: 0x3d71_9799_812d_ea11 }
    }
}

} // verus!
