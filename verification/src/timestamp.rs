//! Timestamps: unsigned 256-bit counts of seconds, as the host stores them.

use stylus_sdk::alloy_primitives::U256;
use vstd::prelude::*;

verus! {

/// Length of the recency window in seconds.
pub const WINDOW_SECS: u64 = 120;

/// The number that four 64-bit limbs stand for, least significant limb first.
pub open spec fn limbs_value(limbs: Seq<u64>) -> nat {
    (limbs[0] + limbs[1] * 0x1_0000_0000_0000_0000int
        + limbs[2] * 0x1_0000_0000_0000_0000_0000_0000_0000_0000int
        + limbs[3] * 0x1_0000_0000_0000_0000_0000_0000_0000_0000_0000_0000_0000_0000int) as nat
}

/// The start of the recency window that ends at `now`: `WINDOW_SECS` earlier,
/// or zero where `now` is smaller than the window.
pub open spec fn window_start(now: nat) -> nat {
    if now >= WINDOW_SECS {
        (now - WINDOW_SECS) as nat
    } else {
        0
    }
}

/// A point in time in seconds, held as a 256-bit word in four limbs, least
/// significant first.
#[derive(Clone, Copy, Debug, PartialEq, Eq)]
pub struct Timestamp {
    pub limbs: [u64; 4],
}

impl View for Timestamp {
    type V = nat;

    open spec fn view(&self) -> nat {
        limbs_value(self.limbs@)
    }
}

/// Calls `Uint::saturating_sub` of `ruint` on two 256-bit words, which
/// `alloy_primitives` names `U256`. The result is the difference of the two
/// numbers, or zero where `rhs` is the larger one. The limbs go in through
/// `Uint::from_limbs` and come out through `Uint::into_limbs`, which take and
/// give them least significant first and accept every 256-bit value.
#[verifier::external_body]
fn word_saturating_sub(lhs: Timestamp, rhs: Timestamp) -> (diff: Timestamp)
    ensures
        diff@ == if lhs@ >= rhs@ { lhs@ - rhs@ } else { 0 },
{
    Timestamp {
        limbs: U256::from_limbs(lhs.limbs).saturating_sub(U256::from_limbs(rhs.limbs)).into_limbs(),
    }
}

/// Compares two 256-bit words with `>=`, the `PartialOrd::ge` of `ruint`'s
/// `Uint`, which orders words as the numbers they stand for. The limbs go in
/// through `Uint::from_limbs`, least significant first.
#[verifier::external_body]
fn word_ge(lhs: Timestamp, rhs: Timestamp) -> (at_least: bool)
    ensures
        at_least == (lhs@ >= rhs@),
{
    U256::from_limbs(lhs.limbs) >= U256::from_limbs(rhs.limbs)
}

impl Timestamp {
    /// The timestamp of `secs` seconds.
    pub fn from_u64(secs: u64) -> (t: Timestamp)
        ensures
            t@ == secs,
    {
        Timestamp { limbs: [secs, 0, 0, 0] }
    }

    /// The start of the recency window that ends at `self`.
    pub fn window_start(self) -> (start: Timestamp)
        ensures
            start@ == window_start(self@),
    {
        word_saturating_sub(self, Timestamp::from_u64(WINDOW_SECS))
    }

    /// Whether `self` is no earlier than `other`.
    pub(crate) fn at_least(self, other: Timestamp) -> (b: bool)
        ensures
            b == (self@ >= other@),
    {
        word_ge(self, other)
    }
}

} // verus!
