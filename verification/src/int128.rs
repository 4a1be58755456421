//! 128-bit integers as they stand in stored state.

use vstd::prelude::*;

verus! {

/// A stored unsigned 128-bit integer.
#[derive(Clone, Copy, Debug, PartialEq, Eq, Structural)]
pub struct U128(pub u128);

impl U128 {
    /// The stored form of `v`.
    #[verifier::allow_in_spec]
    pub fn new(v: u128) -> U128
        returns
            U128(v),
    {
        U128(v)
    }

    /// The stored value.
    #[verifier::allow_in_spec]
    pub fn get(self) -> u128
        returns
            self.0,
    {
        self.0
    }

    /// Whether the stored value is zero.
    #[verifier::allow_in_spec]
    pub fn is_zero(self) -> bool
        returns
            self.0 == 0,
    {
        self.0 == 0
    }
}

/// A stored signed 128-bit integer.
#[derive(Clone, Copy, Debug, PartialEq, Eq, Structural)]
pub struct I128(pub i128);

impl I128 {
    /// The stored form of `v`.
    #[verifier::allow_in_spec]
    pub fn new(v: i128) -> I128
        returns
            I128(v),
    {
        I128(v)
    }

    /// The stored value.
    #[verifier::allow_in_spec]
    pub fn get(self) -> i128
        returns
            self.0,
    {
        self.0
    }
}

} // verus!
