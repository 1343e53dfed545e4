//! A signed duration split into whole seconds and a sub-second nanosecond
//! part, as game time is reported by the unit.

use vstd::prelude::*;

verus! {

/// Nanoseconds in a second.
pub const NANOS_PER_SECOND: i32 = 1000000000;

/// A signed duration: whole seconds plus a fractional part in nanoseconds.
/// In a well-formed value the two parts carry the same sign.
#[derive(Clone, Copy, Debug, PartialEq, Eq, Structural)]
pub struct SignedDuration {
    pub seconds: i64,
    pub nanos: i32,
}

impl SignedDuration {
    /// Both parts are in range and carry the same sign.  The extreme
    /// negative second count is excluded so the duration can always be
    /// negated.
    pub open spec fn wf(self) -> bool {
        &&& -(NANOS_PER_SECOND - 1) <= self.nanos <= NANOS_PER_SECOND - 1
        &&& (self.seconds > 0 ==> self.nanos >= 0)
        &&& (self.seconds < 0 ==> self.nanos <= 0)
        &&& self.seconds > i64::MIN
    }

    /// The duration in nanoseconds.
    pub open spec fn total_nanos(self) -> int {
        self.seconds * (NANOS_PER_SECOND as int) + self.nanos
    }

    /// The zero duration.
    pub fn zero() -> (d: Self)
        ensures
            d.seconds == 0,
            d.nanos == 0,
            d.wf(),
    {
        SignedDuration { seconds: 0, nanos: 0 }
    }

    /// A duration from its two parts.
    pub fn new(seconds: i64, nanos: i32) -> (d: Self)
        requires
            (SignedDuration { seconds, nanos }).wf(),
        ensures
            d.seconds == seconds,
            d.nanos == nanos,
            d.wf(),
    {
        SignedDuration { seconds, nanos }
    }
}

} // verus!
