//! A signed millisecond count, used both as an instant and as a duration.
use vstd::prelude::*;

verus! {

/// Milliseconds in one day.
pub const DAY_MILLISECONDS: i64 = 86_400_000;

/// A time value with millisecond resolution. Negative values are allowed.
#[derive(Debug, Clone, Copy, PartialEq, Eq, PartialOrd, Ord, Structural)]
pub struct Time {
    millisecond: i64,
}

impl View for Time {
    type V = int;

    /// The millisecond count.
    closed spec fn view(&self) -> int {
        self.millisecond as int
    }
}

/// Whether `m` is a millisecond count that a `Time` can hold.
pub open spec fn fits_i64(m: int) -> bool {
    i64::MIN <= m <= i64::MAX
}

/// Floor-style remainder of `m` by one day: always at least zero and below
/// `DAY_MILLISECONDS`.
pub open spec fn day_remainder(m: int) -> int {
    m % (DAY_MILLISECONDS as int)
}

impl Time {
    /// The time of `m` milliseconds.
    pub closed spec fn from_count(m: i64) -> Time {
        Time { millisecond: m }
    }

    /// The time of `milliseconds` milliseconds, exactly.
    pub fn from_milliseconds(milliseconds: i64) -> (r: Time)
        ensures
            r@ == milliseconds as int,
            r == Time::from_count(milliseconds),
    {
        Time { millisecond: milliseconds }
    }

    /// The zero time.
    pub fn zero() -> (r: Time)
        ensures
            r@ == 0,
    {
        Time { millisecond: 0 }
    }

    /// The millisecond count, exactly.
    pub fn to_milliseconds(&self) -> (r: i64)
        ensures
            r as int == self@,
    {
        self.millisecond
    }

    /// Wraps the time onto a single day, from zero up to but not including
    /// `DAY_MILLISECONDS`, with a floor-style remainder: negative times wrap
    /// to a positive time of day.
    pub fn normalized(&self) -> (r: Time)
        ensures
            r@ == day_remainder(self@),
            0 <= r@ < DAY_MILLISECONDS,
            0 <= self@ < DAY_MILLISECONDS ==> r == *self,
            -DAY_MILLISECONDS <= self@ < 0 ==> r@ == self@ + DAY_MILLISECONDS,
    {
        let m = self.millisecond % DAY_MILLISECONDS;
        let n: i64 = if m < 0 { m + DAY_MILLISECONDS } else { m };
        Time { millisecond: n }
    }

    /// The sum of two times.
    pub fn add(self, other: Time) -> (r: Time)
        requires
            fits_i64(self@ + other@),
        ensures
            r@ == self@ + other@,
    {
        Time { millisecond: self.millisecond + other.millisecond }
    }

    /// The difference of two times.
    pub fn sub(self, other: Time) -> (r: Time)
        requires
            fits_i64(self@ - other@),
        ensures
            r@ == self@ - other@,
    {
        Time { millisecond: self.millisecond - other.millisecond }
    }

    /// Adds `other` in place.
    pub fn add_assign(&mut self, other: Time)
        requires
            fits_i64(old(self)@ + other@),
        ensures
            final(self)@ == old(self)@ + other@,
    {
        self.millisecond = self.millisecond + other.millisecond;
    }

    /// Subtracts `other` in place.
    pub fn sub_assign(&mut self, other: Time)
        requires
            fits_i64(old(self)@ - other@),
        ensures
            final(self)@ == old(self)@ - other@,
    {
        self.millisecond = self.millisecond - other.millisecond;
    }

    /// Whether `self` is strictly earlier than `other`.
    pub fn is_before(&self, other: &Time) -> (r: bool)
        ensures
            r == (self@ < other@),
    {
        self.millisecond < other.millisecond
    }
}

/// Building a time from a millisecond count and reading the count back
/// gives that count; and a time is determined by its count, so that reading
/// a time's count and building a time from it gives that time.
pub proof fn lemma_milliseconds_round_trip(m: i64, t: Time, u: Time)
    ensures
        Time::from_count(m)@ == m as int,
        fits_i64(t@),
        t@ == u@ ==> t == u,
{
}

impl From<i64> for Time {
    /// A time of `milliseconds` milliseconds.
    fn from(milliseconds: i64) -> (r: Time) {
        Time::from_milliseconds(milliseconds)
    }
}

impl vstd::std_specs::convert::FromSpecImpl<i64> for Time {
    open spec fn obeys_from_spec() -> bool {
        true
    }

    closed spec fn from_spec(milliseconds: i64) -> Time {
        Time { millisecond: milliseconds }
    }
}

impl From<Time> for i64 {
    /// The millisecond count of `t`.
    fn from(t: Time) -> (r: i64) {
        t.to_milliseconds()
    }
}

impl vstd::std_specs::convert::FromSpecImpl<Time> for i64 {
    open spec fn obeys_from_spec() -> bool {
        true
    }

    closed spec fn from_spec(t: Time) -> i64 {
        t.millisecond
    }
}

impl Default for Time {
    /// The zero time.
    fn default() -> (r: Time)
        ensures
            r@ == 0,
    {
        Time::zero()
    }
}

} // verus!
