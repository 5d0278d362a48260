//! `HH:MM:SS:FF` timecodes: a time of day at the resolution of one frame of
//! a timebase.
use vstd::prelude::*;

use crate::text::{all_digits, digits_value, is_digit, lemma_two_digits, read_number};
use crate::time::{day_remainder, Time};
use crate::timebase::{round_div, time_of_frames, Timebase};
use vstd::arithmetic::div_mod::{
    lemma_div_pos_is_pos, lemma_fundamental_div_mod, lemma_multiply_divide_lt,
};

verus! {

/// Hours, minutes, seconds and frames, counted at the integer rate of
/// `timebase`. The fields are not checked when built directly.
#[derive(Debug, Clone, Copy)]
pub struct Timecode {
    pub hour_code: u8,
    pub minute_code: u8,
    pub second_code: u8,
    pub frame_code: u16,
    pub timebase: Timebase,
}

/// The frame of the day that a time of `ms` milliseconds falls nearest to at
/// `rate` frames per second: its time of day in seconds times the rate,
/// rounded to the nearest frame.
pub open spec fn day_frames(ms: int, rate: int) -> int {
    round_div(day_remainder(ms) * rate, 1000)
}

/// The timecode of a time of `ms` milliseconds at the integer rate of
/// `timebase`: its frame of the day split into frames, seconds, minutes and
/// hours.
pub open spec fn timecode_of(ms: int, timebase: Timebase) -> Timecode {
    let rate = timebase.framerate_spec() as int;
    let frames = day_frames(ms, rate);
    Timecode {
        hour_code: (frames / rate / 60 / 60 % 24) as u8,
        minute_code: (frames / rate / 60 % 60) as u8,
        second_code: (frames / rate % 60) as u8,
        frame_code: (frames % rate) as u16,
        timebase,
    }
}

/// The frame count that the fields of `tc` add up to at `rate`.
pub open spec fn code_frames(tc: Timecode, rate: int) -> int {
    tc.hour_code * 3600 * rate + tc.minute_code * 60 * rate + tc.second_code * rate
        + tc.frame_code
}

/// Whether `s` is two digits, a separator, two digits, a separator, two
/// digits, a separator and two or more digits, where a separator is any
/// character but a digit.
pub open spec fn timecode_shape(s: Seq<char>) -> bool {
    &&& s.len() >= 11
    &&& all_digits(s, 0, 2) && all_digits(s, 3, 5) && all_digits(s, 6, 8)
    &&& all_digits(s, 9, s.len() as int)
    &&& !is_digit(s[2]) && !is_digit(s[5]) && !is_digit(s[8])
}

/// Turning a time into a timecode and the timecode back into a time lands
/// within half a frame, plus half a millisecond of rounding, of the time of
/// day; this holds wherever the time of day does not round up to the next
/// day's first frame, which the timecode shows as midnight.
pub proof fn lemma_time_round_trip(time: Time, timebase: Timebase)
    requires
        timebase.framerate_spec() > 0,
        day_frames(time@, timebase.framerate_spec() as int) < timebase.framerate_spec() * 86400,
    ensures
        ({
            let rate = timebase.framerate_spec() as int;
            let back = time_of_frames(code_frames(timecode_of(time@, timebase), rate), rate);
            let diff = back - day_remainder(time@);
            &&& code_frames(timecode_of(time@, timebase), rate) == day_frames(time@, rate)
            &&& 2 * rate * diff <= rate + 1000
            &&& 2 * rate * diff >= -(rate + 1000)
        }),
{
    let r = timebase.framerate_spec() as int;
    let nm = day_remainder(time@);
    let f = day_frames(time@, r);
    let tc = timecode_of(time@, timebase);
    timebase.lemma_framerate_bound();
    assert(0 <= nm < 86_400_000);
    assert(0 <= nm * r) by (nonlinear_arith)
        requires
            0 <= nm,
            0 < r,
    ;
    assert(f == (2 * (nm * r) + 1000) / 2000);
    assert(2000 * f <= 2 * (nm * r) + 1000 && 2 * (nm * r) + 1000 < 2000 * f + 2000)
        by (nonlinear_arith)
        requires
            f == (2 * (nm * r) + 1000) / 2000,
    ;
    assert(0 <= f);
    let sec = f / r;
    let min = sec / 60;
    let hr = min / 60;
    lemma_fundamental_div_mod(f, r);
    lemma_fundamental_div_mod(sec, 60);
    lemma_fundamental_div_mod(min, 60);
    lemma_div_pos_is_pos(f, r);
    lemma_div_pos_is_pos(sec, 60);
    lemma_div_pos_is_pos(min, 60);
    lemma_multiply_divide_lt(f, r, 86400);
    assert(min < 1440);
    assert(hr < 24);
    assert(0 <= f % r < r && 0 <= sec % 60 < 60 && 0 <= min % 60 < 60);
    assert(tc.frame_code == f % r);
    assert(tc.second_code == sec % 60);
    assert(tc.minute_code == min % 60);
    assert(tc.hour_code == hr);
    assert(code_frames(tc, r) == f) by (nonlinear_arith)
        requires
            f == r * sec + f % r,
            sec == 60 * min + sec % 60,
            min == 60 * hr + min % 60,
            code_frames(tc, r) == tc.hour_code * 3600 * r + tc.minute_code * 60 * r
                + tc.second_code * r + tc.frame_code,
            tc.frame_code == f % r,
            tc.second_code == sec % 60,
            tc.minute_code == min % 60,
            tc.hour_code == hr,
    ;
    let b = (2 * (f * 1000) + r) / (2 * r);
    assert(2 * r * b <= 2 * (f * 1000) + r && 2 * (f * 1000) + r < 2 * r * b + 2 * r)
        by (nonlinear_arith)
        requires
            r > 0,
            b == (2 * (f * 1000) + r) / (2 * r),
    ;
    assert(0 <= f * 1000);
    assert(f * 1000 <= 86_400_000 * 65535) by (nonlinear_arith)
        requires
            f < r * 86400,
            r <= 65535,
    ;
    assert(b <= f * 1000 + 1) by (nonlinear_arith)
        requires
            r > 0,
            0 <= f * 1000,
            2 * r * b <= 2 * (f * 1000) + r,
    ;
    assert(time_of_frames(f, r) == b);
    assert(2 * r * (b - nm) <= r + 1000 && 2 * r * (b - nm) >= -(r + 1000)) by (nonlinear_arith)
        requires
            2000 * f <= 2 * (nm * r) + 1000,
            2 * (nm * r) + 1000 < 2000 * f + 2000,
            2 * r * b <= 2 * (f * 1000) + r,
            2 * (f * 1000) + r < 2 * r * b + 2 * r,
    ;
}

impl Timecode {
    /// A timecode of the given fields, unchecked.
    pub fn new(
        hour_code: u8,
        minute_code: u8,
        second_code: u8,
        frame_code: u16,
        timebase: Timebase,
    ) -> (r: Timecode)
        ensures
            r.hour_code == hour_code,
            r.minute_code == minute_code,
            r.second_code == second_code,
            r.frame_code == frame_code,
            r.timebase == timebase,
    {
        Timecode { hour_code, minute_code, second_code, frame_code, timebase }
    }

    /// The timecode of `time`: wrapped onto one day, counted in whole frames
    /// to the nearest frame, then split into frames, seconds, minutes and
    /// hours at the integer rate of `timebase`.
    pub fn from_time(time: Time, timebase: Timebase) -> (r: Timecode)
        requires
            timebase.framerate_spec() > 0,
        ensures
            r == timecode_of(time@, timebase),
    {
        let rate = timebase.framerate() as u64;
        let ms = time.normalized().to_milliseconds() as u64;
        assert(ms * rate <= 86_400_000 * 65535) by (nonlinear_arith)
            requires
                ms < 86_400_000,
                rate <= 65535,
        ;
        let frames: u64 = (2 * (ms * rate) + 1000) / 2000;
        let ff = frames % rate;
        let seconds = frames / rate;
        let ss = seconds % 60;
        let minutes = seconds / 60;
        let mm = minutes % 60;
        let hours = minutes / 60;
        let hh = hours % 24;
        Timecode {
            hour_code: hh as u8,
            minute_code: mm as u8,
            second_code: ss as u8,
            frame_code: ff as u16,
            timebase,
        }
    }

    /// The time of the timecode: its fields counted up into frames at the
    /// integer rate, divided by the rate to the nearest millisecond.
    pub fn to_time(&self) -> (r: Time)
        ensures
            r@ == time_of_frames(
                code_frames(*self, self.timebase.framerate_spec() as int),
                self.timebase.framerate_spec() as int,
            ),
    {
        let rate = self.timebase.framerate() as i64;
        let h = self.hour_code as i64;
        let m = self.minute_code as i64;
        let s = self.second_code as i64;
        assert(h * 3600 * rate <= 255 * 3600 * 65535 && m * 60 * rate <= 255 * 60 * 65535 && s
            * rate <= 255 * 65535) by (nonlinear_arith)
            requires
                0 <= h <= 255,
                0 <= m <= 255,
                0 <= s <= 255,
                0 <= rate <= 65535,
        ;
        let frames = h * 3600 * rate + m * 60 * rate + s * rate + self.frame_code as i64;
        self.timebase.time_from_frames(frames)
    }

    /// Reads two digits, a separator, two digits, a separator, two digits,
    /// a separator and two or more digits, where a separator is any
    /// character but a digit; the fields are not range-checked. `None` where
    /// the text has another shape or the frame count is above `u16::MAX`.
    pub fn from_string(code: &str, timebase: Timebase) -> (r: Option<Timecode>)
        ensures
            r.is_some() <==> timecode_shape(code@) && digits_value(
                code@.subrange(9, code@.len() as int),
            ) <= u16::MAX,
            r.is_some() ==> ({
                let s = code@;
                let tc = r.unwrap();
                &&& tc.hour_code == digits_value(s.subrange(0, 2))
                &&& tc.minute_code == digits_value(s.subrange(3, 5))
                &&& tc.second_code == digits_value(s.subrange(6, 8))
                &&& tc.frame_code == digits_value(s.subrange(9, s.len() as int))
                &&& tc.timebase == timebase
            }),
    {
        let len = code.unicode_len();
        if len < 11 {
            return None;
        }
        let c2 = code.get_char(2);
        let c5 = code.get_char(5);
        let c8 = code.get_char(8);
        if ('0' <= c2 && c2 <= '9') || ('0' <= c5 && c5 <= '9') || ('0' <= c8 && c8 <= '9') {
            return None;
        }
        let ghost s = code@;
        let h = read_number(code, 0, 2, 255);
        let m = read_number(code, 3, 5, 255);
        let sec = read_number(code, 6, 8, 255);
        let f = read_number(code, 9, len, u16::MAX as u64);
        if let (Some(h), Some(m), Some(sec), Some(f)) = (h, m, sec, f) {
            Some(Timecode::new(h as u8, m as u8, sec as u8, f as u16, timebase))
        } else {
            proof {
                if timecode_shape(s) {
                    lemma_two_digits(s.subrange(0, 2));
                    lemma_two_digits(s.subrange(3, 5));
                    lemma_two_digits(s.subrange(6, 8));
                }
            }
            None
        }
    }
}

impl Default for Timecode {
    /// `00:00:00:00` at the default timebase of 24 frames per second.
    fn default() -> (r: Timecode)
        ensures
            r.hour_code == 0 && r.minute_code == 0 && r.second_code == 0 && r.frame_code == 0,
            r.timebase.framerate_spec() == 24,
    {
        Timecode::new(0, 0, 0, 0, Timebase::default())
    }
}

} // verus!
