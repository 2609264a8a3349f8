//! Plain-value time representations.
//!
//! The core never reads the clock: wall-clock values enter as data recorded
//! by the surrounding runtime and are carried through unchanged. They are
//! held as signed millisecond counts so that the validation logic stays a
//! pure function of plain values.

use vstd::prelude::*;

verus! {

/// A wall-clock instant, as milliseconds since the Unix epoch.
///
/// Journal timestamps are diagnostic only; replay logic must not depend on
/// them.
#[derive(Clone, Copy, Debug, PartialEq, Eq, Hash, Structural)]
pub struct Timestamp {
    pub millis_since_epoch: i64,
}

impl Timestamp {
    /// An instant from its millisecond count.
    pub fn from_millis(millis_since_epoch: i64) -> (r: Self)
        ensures
            r.millis_since_epoch == millis_since_epoch,
    {
        Self { millis_since_epoch }
    }

    /// The millisecond count of this instant.
    pub fn millis(&self) -> (r: i64)
        ensures
            r == self.millis_since_epoch,
    {
        self.millis_since_epoch
    }
}

/// A span of time, as a signed number of milliseconds.
#[derive(Clone, Copy, Debug, PartialEq, Eq, Hash, Structural)]
pub struct TimeDelta {
    pub millis: i64,
}

impl TimeDelta {
    /// A span from its millisecond count.
    pub fn from_millis(millis: i64) -> (r: Self)
        ensures
            r.millis == millis,
    {
        Self { millis }
    }

    /// The millisecond count of this span.
    pub fn millis(&self) -> (r: i64)
        ensures
            r == self.millis,
    {
        self.millis
    }
}

} // verus!
