//! `HH:MM:SS.mmm` timestamps: a time of day at millisecond resolution,
//! independent of any frame rate.
//!
//! Two readings of text are offered. `Timestamp::parse` is the strict one:
//! exactly `HH:MM:SS.mmm`, with the hour, minute and second range-checked and
//! each failure named. `Timestamp::from_string` is the loose one: any
//! non-digit separators and no range checks, with `None` on failure.
use vstd::prelude::*;

use crate::text::{
    all_digits, decimal, digits_value, is_digit, lemma_decimal_three, lemma_decimal_two,
    lemma_two_digits, push_decimal, read_number,
};
use crate::time::{day_remainder, Time, DAY_MILLISECONDS};

verus! {

/// Hours, minutes, seconds and milliseconds. The fields are not checked
/// when built directly; `parse` checks them.
#[derive(Debug, Clone, Copy, PartialEq, Eq, Structural)]
pub struct Timestamp {
    pub hour_code: u8,
    pub minute_code: u8,
    pub second_code: u8,
    pub millisecond_code: u16,
}

/// Why a text is not a strict timestamp.
#[derive(Debug, Clone, Copy, PartialEq, Eq, Structural)]
pub enum TimestampError {
    /// The text is not two digits, `:`, two digits, `:`, two digits, `.`,
    /// three digits.
    Pattern,
    /// The hour is above 23.
    HourOutOfRange(u8),
    /// The minute is above 59.
    MinuteOutOfRange(u8),
    /// The second is above 59.
    SecondOutOfRange(u8),
}

/// The milliseconds that the fields of `t` add up to.
pub open spec fn total_millis(t: Timestamp) -> int {
    t.hour_code * 3_600_000 + t.minute_code * 60_000 + t.second_code * 1000 + t.millisecond_code
}

/// The text `HH:MM:SS.mmm` of `t`, each field zero-padded to its width.
pub open spec fn timestamp_text(t: Timestamp) -> Seq<char> {
    decimal(t.hour_code as nat, 2) + seq![':'] + decimal(t.minute_code as nat, 2) + seq![':']
        + decimal(t.second_code as nat, 2) + seq!['.'] + decimal(t.millisecond_code as nat, 3)
}

/// Whether `s` is two digits, a separator, two digits, a separator, two
/// digits, a separator, three digits, where a separator is any character but
/// a digit.
pub open spec fn loose_shape(s: Seq<char>) -> bool {
    &&& s.len() == 12
    &&& all_digits(s, 0, 2) && all_digits(s, 3, 5) && all_digits(s, 6, 8) && all_digits(s, 9, 12)
    &&& !is_digit(s[2]) && !is_digit(s[5]) && !is_digit(s[8])
}

/// Whether `s` is exactly `HH:MM:SS.mmm` in shape, ranges aside.
pub open spec fn strict_shape(s: Seq<char>) -> bool {
    &&& s.len() == 12
    &&& all_digits(s, 0, 2) && all_digits(s, 3, 5) && all_digits(s, 6, 8) && all_digits(s, 9, 12)
    &&& s[2] == ':' && s[5] == ':' && s[8] == '.'
}

/// The timestamp that the digit groups of `s` write.
pub open spec fn groups_of(s: Seq<char>) -> Timestamp {
    Timestamp {
        hour_code: digits_value(s.subrange(0, 2)) as u8,
        minute_code: digits_value(s.subrange(3, 5)) as u8,
        second_code: digits_value(s.subrange(6, 8)) as u8,
        millisecond_code: digits_value(s.subrange(9, 12)) as u16,
    }
}

/// What strict parsing gives for `s`.
pub open spec fn parse_result(s: Seq<char>) -> Result<Timestamp, TimestampError> {
    if !strict_shape(s) {
        Err(TimestampError::Pattern)
    } else {
        let t = groups_of(s);
        if t.hour_code > 23 {
            Err(TimestampError::HourOutOfRange(t.hour_code))
        } else if t.minute_code > 59 {
            Err(TimestampError::MinuteOutOfRange(t.minute_code))
        } else if t.second_code > 59 {
            Err(TimestampError::SecondOutOfRange(t.second_code))
        } else {
            Ok(t)
        }
    }
}

/// Two digits never write more than 99, three never more than 999.
proof fn lemma_small_groups(s: Seq<char>)
    requires
        s.len() == 12,
        all_digits(s, 0, 2) && all_digits(s, 3, 5) && all_digits(s, 6, 8) && all_digits(s, 9, 12),
    ensures
        digits_value(s.subrange(0, 2)) <= 99,
        digits_value(s.subrange(3, 5)) <= 99,
        digits_value(s.subrange(6, 8)) <= 99,
        digits_value(s.subrange(9, 12)) <= 999,
{
    lemma_two_digits(s.subrange(0, 2));
    lemma_two_digits(s.subrange(3, 5));
    lemma_two_digits(s.subrange(6, 8));
    let m = s.subrange(9, 12);
    assert(all_digits(m, 0, 3)) by {
        assert forall|i: int| 0 <= i < 3 implies is_digit(#[trigger] m[i]) by {
            assert(m[i] == s[9 + i]);
        }
    }
    lemma_two_digits(m.drop_last());
}

/// A timestamp with its hour at most 23, its minute and second at most 59
/// and its millisecond at most 999 reads back from its text, by strict
/// parsing, as itself.
pub proof fn lemma_text_round_trip(t: Timestamp)
    requires
        t.hour_code <= 23,
        t.minute_code <= 59,
        t.second_code <= 59,
        t.millisecond_code <= 999,
    ensures
        parse_result(timestamp_text(t)) == Ok::<Timestamp, TimestampError>(t),
{
    let h = decimal(t.hour_code as nat, 2);
    let m = decimal(t.minute_code as nat, 2);
    let sec = decimal(t.second_code as nat, 2);
    let ms = decimal(t.millisecond_code as nat, 3);
    lemma_decimal_two(t.hour_code as nat);
    lemma_decimal_two(t.minute_code as nat);
    lemma_decimal_two(t.second_code as nat);
    lemma_decimal_three(t.millisecond_code as nat);
    let s = timestamp_text(t);
    assert(s.len() == 12);
    assert(s.subrange(0, 2) =~= h);
    assert(s.subrange(3, 5) =~= m);
    assert(s.subrange(6, 8) =~= sec);
    assert(s.subrange(9, 12) =~= ms);
    assert(s[2] == ':' && s[5] == ':' && s[8] == '.');
    assert(all_digits(s, 0, 2) && all_digits(s, 3, 5) && all_digits(s, 6, 8) && all_digits(
        s,
        9,
        12,
    )) by {
        assert forall|i: int| 0 <= i < 2 implies is_digit(#[trigger] s[i]) by {
            assert(s[i] == h[i]);
        }
        assert forall|i: int| 3 <= i < 5 implies is_digit(#[trigger] s[i]) by {
            assert(s[i] == m[i - 3]);
        }
        assert forall|i: int| 6 <= i < 8 implies is_digit(#[trigger] s[i]) by {
            assert(s[i] == sec[i - 6]);
        }
        assert forall|i: int| 9 <= i < 12 implies is_digit(#[trigger] s[i]) by {
            assert(s[i] == ms[i - 9]);
        }
    }
    assert(groups_of(s) == t);
}

impl Timestamp {
    /// A timestamp of the given fields, unchecked.
    pub fn new(hour_code: u8, minute_code: u8, second_code: u8, millisecond_code: u16) -> (r:
        Timestamp)
        ensures
            r.hour_code == hour_code,
            r.minute_code == minute_code,
            r.second_code == second_code,
            r.millisecond_code == millisecond_code,
    {
        Timestamp { hour_code, minute_code, second_code, millisecond_code }
    }

    /// The time of day of `time`: wrapped onto one day, then split into
    /// hours, minutes, seconds and milliseconds.
    pub fn from_time(time: Time) -> (r: Timestamp)
        ensures
            total_millis(r) == day_remainder(time@),
            r.hour_code == day_remainder(time@) / 3_600_000,
            r.minute_code == day_remainder(time@) / 60_000 % 60,
            r.second_code == day_remainder(time@) / 1000 % 60,
            r.millisecond_code == day_remainder(time@) % 1000,
    {
        let ms = time.normalized().to_milliseconds();
        let mmm = ms % 1000;
        let seconds = ms / 1000;
        let ss = seconds % 60;
        let minutes = seconds / 60;
        let mm = minutes % 60;
        let hours = minutes / 60;
        let hh = hours % 24;
        assert(hours < 24);
        assert(ms / 60_000 == minutes);
        assert(ms / 3_600_000 == hours);
        Timestamp {
            hour_code: hh as u8,
            minute_code: mm as u8,
            second_code: ss as u8,
            millisecond_code: mmm as u16,
        }
    }

    /// The time that the fields add up to.
    pub fn to_time(&self) -> (r: Time)
        ensures
            r@ == total_millis(*self),
    {
        Time::from_milliseconds(
            self.hour_code as i64 * 3_600_000 + self.minute_code as i64 * 60_000
                + self.second_code as i64 * 1000 + self.millisecond_code as i64,
        )
    }

    /// The text `HH:MM:SS.mmm`, each field zero-padded to its width.
    pub fn to_string(&self) -> (r: String)
        ensures
            r@ == timestamp_text(*self),
    {
        let mut out = String::new();
        push_decimal(&mut out, self.hour_code as u64, 2);
        out.append(":");
        push_decimal(&mut out, self.minute_code as u64, 2);
        out.append(":");
        push_decimal(&mut out, self.second_code as u64, 2);
        out.append(".");
        push_decimal(&mut out, self.millisecond_code as u64, 3);
        proof {
            reveal_strlit(":");
            reveal_strlit(".");
        }
        assert(out@ =~= timestamp_text(*self));
        out
    }

    /// Reads two digits, a separator, two digits, a separator, two digits,
    /// a separator and three digits, where a separator is any character but
    /// a digit; the fields are not range-checked. `None` where the text has
    /// another shape.
    pub fn from_string(s: &str) -> (r: Option<Timestamp>)
        ensures
            r.is_some() <==> loose_shape(s@),
            r.is_some() ==> r.unwrap() == groups_of(s@),
    {
        if s.unicode_len() != 12 {
            return None;
        }
        let c2 = s.get_char(2);
        let c5 = s.get_char(5);
        let c8 = s.get_char(8);
        if ('0' <= c2 && c2 <= '9') || ('0' <= c5 && c5 <= '9') || ('0' <= c8 && c8 <= '9') {
            return None;
        }
        Timestamp::read_groups(s)
    }

    /// Reads `HH:MM:SS.mmm` exactly, with the hour at most 23 and the minute
    /// and second at most 59.
    pub fn parse(s: &str) -> (r: Result<Timestamp, TimestampError>)
        ensures
            r == parse_result(s@),
    {
        if s.unicode_len() != 12 {
            return Err(TimestampError::Pattern);
        }
        if s.get_char(2) != ':' || s.get_char(5) != ':' || s.get_char(8) != '.' {
            return Err(TimestampError::Pattern);
        }
        match Timestamp::read_groups(s) {
            None => Err(TimestampError::Pattern),
            Some(t) => {
                if t.hour_code > 23 {
                    Err(TimestampError::HourOutOfRange(t.hour_code))
                } else if t.minute_code > 59 {
                    Err(TimestampError::MinuteOutOfRange(t.minute_code))
                } else if t.second_code > 59 {
                    Err(TimestampError::SecondOutOfRange(t.second_code))
                } else {
                    Ok(t)
                }
            },
        }
    }

    /// The four digit groups of a twelve-character text, where they are all
    /// digits.
    fn read_groups(s: &str) -> (r: Option<Timestamp>)
        requires
            s@.len() == 12,
        ensures
            r.is_some() <==> (all_digits(s@, 0, 2) && all_digits(s@, 3, 5) && all_digits(s@, 6, 8)
                && all_digits(s@, 9, 12)),
            r.is_some() ==> r.unwrap() == groups_of(s@),
    {
        let ghost v = s@;
        if let (Some(h), Some(m), Some(sec), Some(ms)) = (
            read_number(s, 0, 2, 99),
            read_number(s, 3, 5, 99),
            read_number(s, 6, 8, 99),
            read_number(s, 9, 12, 999),
        ) {
            Some(Timestamp::new(h as u8, m as u8, sec as u8, ms as u16))
        } else {
            proof {
                if all_digits(v, 0, 2) && all_digits(v, 3, 5) && all_digits(v, 6, 8) && all_digits(
                    v,
                    9,
                    12,
                ) {
                    lemma_small_groups(v);
                }
            }
            None
        }
    }
}

impl Default for Timestamp {
    /// `00:00:00.000`.
    fn default() -> (r: Timestamp)
        ensures
            r.hour_code == 0 && r.minute_code == 0 && r.second_code == 0,
            r.millisecond_code == 0,
    {
        Timestamp::new(0, 0, 0, 0)
    }
}

} // verus!
