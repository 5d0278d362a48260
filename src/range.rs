//! Ordered intervals of time, and the capability of having a place in time.
use vstd::prelude::*;

use crate::time::{fits_i64, Time};

verus! {

/// An interval of time, with `start` never later than `end`.
pub struct TimeRange {
    pub start: Time,
    pub end: Time,
}

/// Whether the half-open intervals from `s1` to `e1` and from `s2` to `e2`
/// share an instant; touching endpoints do not count.
pub open spec fn overlaps(s1: int, e1: int, s2: int, e2: int) -> bool {
    s1 < e2 && s2 < e1
}

impl TimeRange {
    /// Whether `start` is not later than `end`.
    pub open spec fn wf(&self) -> bool {
        self.start@ <= self.end@
    }

    /// The range between `a` and `b`, taken in either order.
    pub fn new(a: Time, b: Time) -> (r: TimeRange)
        ensures
            r.wf(),
            a@ <= b@ ==> r.start == a && r.end == b,
            b@ < a@ ==> r.start == b && r.end == a,
    {
        if b.is_before(&a) {
            TimeRange { start: b, end: a }
        } else {
            TimeRange { start: a, end: b }
        }
    }

    /// The length of the range, `end - start`.
    pub fn duration(&self) -> (r: Time)
        requires
            fits_i64(self.end@ - self.start@),
        ensures
            r@ == self.end@ - self.start@,
    {
        self.end.sub(self.start)
    }

    /// Whether the two half-open ranges overlap; touching ranges do not.
    pub fn is_overlapped_with(&self, other: &TimeRange) -> (r: bool)
        ensures
            r == overlaps(self.start@, self.end@, other.start@, other.end@),
    {
        self.start.is_before(&other.end) && other.start.is_before(&self.end)
    }

    /// The range's two ends, start first.
    pub fn to_pair(&self) -> (r: (Time, Time))
        ensures
            r.0 == self.start,
            r.1 == self.end,
    {
        (self.start, self.end)
    }
}

impl Default for TimeRange {
    /// The empty range at time zero.
    fn default() -> (r: TimeRange)
        ensures
            r.start@ == 0,
            r.end@ == 0,
    {
        TimeRange { start: Time::zero(), end: Time::zero() }
    }
}

impl From<(Time, Time)> for TimeRange {
    /// The range between the two times, taken in either order.
    fn from(value: (Time, Time)) -> (r: TimeRange) {
        TimeRange::new(value.0, value.1)
    }
}

impl vstd::std_specs::convert::FromSpecImpl<(Time, Time)> for TimeRange {
    open spec fn obeys_from_spec() -> bool {
        true
    }

    open spec fn from_spec(value: (Time, Time)) -> TimeRange {
        if value.1@ < value.0@ {
            TimeRange { start: value.1, end: value.0 }
        } else {
            TimeRange { start: value.0, end: value.1 }
        }
    }
}

impl From<TimeRange> for (Time, Time) {
    /// The range's two ends, start first.
    fn from(range: TimeRange) -> (r: (Time, Time)) {
        (range.start, range.end)
    }
}

impl vstd::std_specs::convert::FromSpecImpl<TimeRange> for (Time, Time) {
    open spec fn obeys_from_spec() -> bool {
        true
    }

    open spec fn from_spec(range: TimeRange) -> (Time, Time) {
        (range.start, range.end)
    }
}

} // verus!
