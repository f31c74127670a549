//! Token amounts.

use vstd::prelude::*;
use vstd::bytes::{spec_u64_to_le_bytes, u64_to_le_bytes};

verus! {

/// The number of micro units in one whole token.
pub const SCALE: u64 = 1_000_000;

/// The most whole tokens that an `Amount` can hold.
pub const MAX_WHOLE: u64 = 18_446_744_073_709;

/// An amount of a token, in micro units.
#[derive(Clone, Copy, Debug, PartialEq, Eq, Structural)]
pub struct Amount {
    micro: u64,
}

impl Amount {
    /// The amount in micro units.
    pub closed spec fn spec_micro(&self) -> u64 {
        self.micro
    }

    /// The bytes by which the amount is stored: its micro units as eight
    /// bytes, the least significant first.
    pub open spec fn bytes(&self) -> Seq<u8> {
        spec_u64_to_le_bytes(self.spec_micro())
    }

    /// The amount of `amount` whole tokens.
    pub fn whole(amount: u64) -> (whole: Amount)
        requires
            amount <= MAX_WHOLE,
        ensures
            whole.spec_micro() == amount * SCALE,
    {
        Amount { micro: amount * SCALE }
    }

    /// The amount in micro units.
    pub fn micro(&self) -> (micro: u64)
        ensures
            micro == self.spec_micro(),
    {
        self.micro
    }

    /// The bytes by which the amount is stored.
    pub fn try_to_vec(&self) -> (bytes: Vec<u8>)
        ensures
            bytes@ == self.bytes(),
            bytes@.len() == 8,
    {
        u64_to_le_bytes(self.micro)
    }
}

} // verus!
