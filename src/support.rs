//! The capability of having a place in time: anything with a start and a
//! duration gains an end, overlap tests and a range view.
use vstd::prelude::*;

use crate::range::{overlaps, TimeRange};
use crate::time::{fits_i64, Time};

verus! {

/// Something with a start time and a duration.
pub trait TimeRangeSupport {
    /// The start, as `start_time` reports it.
    spec fn start_spec(&self) -> Time;

    /// The duration, as `duration_time` reports it.
    spec fn duration_spec(&self) -> Time;

    fn start_time(&self) -> (r: Time)
        ensures
            r == self.start_spec(),
    ;

    fn duration_time(&self) -> (r: Time)
        ensures
            r == self.duration_spec(),
    ;

    /// The end: start plus duration.
    fn end_time(&self) -> (r: Time)
        requires
            fits_i64(self.start_spec()@ + self.duration_spec()@),
        ensures
            r@ == self.start_spec()@ + self.duration_spec()@,
    {
        let start = self.start_time();
        let duration = self.duration_time();
        start.add(duration)
    }

    /// Whether the two half-open spans overlap; touching spans do not.
    fn is_overlapped_with(&self, other: &Self) -> (r: bool)
        requires
            fits_i64(self.start_spec()@ + self.duration_spec()@),
            fits_i64(other.start_spec()@ + other.duration_spec()@),
        ensures
            r == overlaps(
                self.start_spec()@,
                self.start_spec()@ + self.duration_spec()@,
                other.start_spec()@,
                other.start_spec()@ + other.duration_spec()@,
            ),
    {
        self.start_time().is_before(&other.end_time()) && other.start_time().is_before(
            &self.end_time(),
        )
    }

    /// The span as a range from its start to its end, taken in either order.
    fn time_range(&self) -> (r: TimeRange)
        requires
            fits_i64(self.start_spec()@ + self.duration_spec()@),
        ensures
            r.wf(),
            self.duration_spec()@ >= 0 ==> r.start == self.start_spec() && r.end@
                == self.start_spec()@ + self.duration_spec()@,
            self.duration_spec()@ < 0 ==> r.end == self.start_spec() && r.start@
                == self.start_spec()@ + self.duration_spec()@,
    {
        TimeRange::new(self.start_time(), self.end_time())
    }
}

/// Something whose start and duration can be set.
pub trait TimeRangeMutableSupport: TimeRangeSupport {
    fn set_start_time(&mut self, start_time: Time)
        ensures
            final(self).start_spec() == start_time,
            final(self).duration_spec() == old(self).duration_spec(),
    ;

    fn set_duration_time(&mut self, duration_time: Time)
        ensures
            final(self).start_spec() == old(self).start_spec(),
            final(self).duration_spec() == duration_time,
    ;

    /// Moves the end to `end_time` by changing the duration; an end not later
    /// than the start gives a zero duration.
    fn set_end_time(&mut self, end_time: Time)
        requires
            fits_i64(end_time@ - old(self).start_spec()@),
        ensures
            final(self).start_spec() == old(self).start_spec(),
            end_time@ > old(self).start_spec()@ ==> final(self).duration_spec()@ == end_time@
                - old(self).start_spec()@,
            end_time@ <= old(self).start_spec()@ ==> final(self).duration_spec()@ == 0,
    {
        let start = self.start_time();
        if start.is_before(&end_time) {
            self.set_duration_time(end_time.sub(start));
        } else {
            self.set_duration_time(Time::zero());
        }
    }

    /// Sets the start and then the end of `time_range`.
    fn set_time_range(&mut self, time_range: TimeRange)
        requires
            time_range.wf(),
            fits_i64(time_range.end@ - time_range.start@),
        ensures
            final(self).start_spec() == time_range.start,
            final(self).duration_spec()@ == time_range.end@ - time_range.start@,
    {
        self.set_start_time(time_range.start);
        self.set_end_time(time_range.end);
    }
}

} // verus!
