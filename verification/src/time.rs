//! Spans of time.

use vstd::prelude::*;

verus! {

/// The longest span, in nanoseconds: as many seconds as 64 bits count, and
/// the part of a second after the last of them.
pub const MAX_NANOS: u128 = 18_446_744_073_709_551_615_999_999_999;

/// A span of time.
#[derive(Clone, Copy, Debug, PartialEq, Eq, Structural)]
pub struct Interval {
    pub nanos: u128,
}

impl Interval {
    /// A span of whole seconds.
    pub fn from_secs(secs: u64) -> (r: Self)
        ensures
            r.nanos == secs * 1_000_000_000,
    {
        Interval { nanos: secs as u128 * 1_000_000_000 }
    }
}

} // verus!
