//! Frame rates, and the conversion between times and frame counts.
use vstd::prelude::*;

use crate::time::{fits_i64, Time};

verus! {

/// The largest working frame rate; larger rates are held at this one.
pub const MAX_FRAMERATE: u16 = 65535;

/// `a / b` rounded to the nearest integer, halves away from zero.
pub open spec fn round_div(a: int, b: int) -> int
    recommends
        b > 0,
{
    if a >= 0 {
        (2 * a + b) / (2 * b)
    } else {
        -((-2 * a + b) / (2 * b))
    }
}

/// `a / b` rounded toward zero.
pub open spec fn trunc_div(a: int, b: int) -> int
    recommends
        b > 0,
{
    if a >= 0 {
        a / b
    } else {
        -((-a) / b)
    }
}

/// `x` held to the range of `i64`.
pub open spec fn clamp_i64(x: int) -> int {
    if x > i64::MAX {
        i64::MAX as int
    } else if x < i64::MIN {
        i64::MIN as int
    } else {
        x
    }
}

/// The working frame rate of the rate `num / den`: the nearest integer,
/// halves up, held at `MAX_FRAMERATE`.
pub open spec fn working_rate(num: nat, den: nat) -> nat {
    let q = round_div(num as int, den as int);
    if q > MAX_FRAMERATE {
        MAX_FRAMERATE as nat
    } else {
        q as nat
    }
}

/// Whole milliseconds per frame at the rate `num / den`, rounded down; a rate
/// of zero, and a count beyond `u32`, give `u32::MAX`.
pub open spec fn millis_per_frame(num: nat, den: nat) -> nat {
    if num == 0 || 1000 * den / num > u32::MAX {
        u32::MAX as nat
    } else {
        1000 * den / num
    }
}

/// The frame, counted from time zero toward it, that a time of `ms`
/// milliseconds falls in at `rate` frames per second: `ms * rate / 1000`
/// rounded toward zero, held to `i64`.
pub open spec fn frames_at(ms: int, rate: int) -> int {
    clamp_i64(trunc_div(ms * rate, 1000))
}

/// The time in milliseconds of frame `frames` at `rate` frames per second:
/// `frames * 1000 / rate` rounded to the nearest millisecond, halves away from
/// zero, held to `i64`. A rate of zero sends every frame but the first to the
/// end of the `i64` range on its side.
pub open spec fn time_of_frames(frames: int, rate: int) -> int {
    if rate == 0 {
        if frames > 0 {
            i64::MAX as int
        } else if frames < 0 {
            i64::MIN as int
        } else {
            0
        }
    } else {
        clamp_i64(round_div(frames * 1000, rate))
    }
}

/// A frame rate, given as the fraction `fps_numerator / fps_denominator`
/// (25 as 25/1, NTSC video as 30000/1001), with the integer rate that all
/// frame arithmetic uses.
#[derive(Debug, Clone, Copy)]
pub struct Timebase {
    fps_numerator: u32,
    fps_denominator: u32,
    framerate: u16,
    dropframe: bool,
}

impl Timebase {
    #[verifier::type_invariant]
    spec fn inv(&self) -> bool {
        &&& self.fps_denominator > 0
        &&& self.framerate == working_rate(self.fps_numerator as nat, self.fps_denominator as nat)
        &&& self.dropframe == (self.framerate * self.fps_denominator == self.fps_numerator)
    }

    /// The numerator of the frame rate.
    pub closed spec fn numerator_spec(&self) -> nat {
        self.fps_numerator as nat
    }

    /// The denominator of the frame rate.
    pub closed spec fn denominator_spec(&self) -> nat {
        self.fps_denominator as nat
    }

    /// The integer frame rate that frame arithmetic uses.
    pub closed spec fn framerate_spec(&self) -> nat {
        self.framerate as nat
    }

    /// The integer frame rate is at most `MAX_FRAMERATE`.
    pub proof fn lemma_framerate_bound(&self)
        ensures
            self.framerate_spec() <= MAX_FRAMERATE,
    {
    }

    /// Whether the frame rate is an integer.
    pub closed spec fn dropframe_spec(&self) -> bool {
        self.dropframe
    }

    /// The timebase of `fps_numerator / fps_denominator` frames per second.
    pub fn new(fps_numerator: u32, fps_denominator: u32) -> (r: Timebase)
        requires
            fps_denominator > 0,
        ensures
            r.numerator_spec() == fps_numerator,
            r.denominator_spec() == fps_denominator,
            r.framerate_spec() == working_rate(fps_numerator as nat, fps_denominator as nat),
            r.dropframe_spec() == (r.framerate_spec() * fps_denominator == fps_numerator),
    {
        let num = fps_numerator as u64;
        let den = fps_denominator as u64;
        let q: u64 = (2 * num + den) / (2 * den);
        let framerate: u16 = if q > MAX_FRAMERATE as u64 {
            MAX_FRAMERATE
        } else {
            q as u16
        };
        assert(framerate as u64 * den <= 65535 * 0xffff_ffff) by (nonlinear_arith)
            requires
                framerate <= 65535,
                den <= 0xffff_ffff,
        ;
        let dropframe = framerate as u64 * den == num;
        Timebase { fps_numerator, fps_denominator, framerate, dropframe }
    }

    /// The frame rate as numerator and denominator.
    pub fn fps(&self) -> (r: (u32, u32))
        ensures
            r.0 == self.numerator_spec(),
            r.1 == self.denominator_spec(),
            r.1 > 0,
    {
        proof {
            use_type_invariant(self);
        }
        (self.fps_numerator, self.fps_denominator)
    }

    /// The integer frame rate: the frame rate rounded to the nearest integer.
    pub fn framerate(&self) -> (r: u16)
        ensures
            r == self.framerate_spec(),
            r == working_rate(self.numerator_spec(), self.denominator_spec()),
    {
        proof {
            use_type_invariant(self);
        }
        self.framerate
    }

    /// Whether the frame rate is an integer, so that rounding it lost nothing.
    pub fn dropframe(&self) -> (r: bool)
        ensures
            r == self.dropframe_spec(),
            r == (self.framerate_spec() * self.denominator_spec() == self.numerator_spec()),
    {
        proof {
            use_type_invariant(self);
        }
        self.dropframe
    }

    /// Whole milliseconds per frame, rounded down.
    pub fn milliseconds_per_frame(&self) -> (r: u32)
        ensures
            r == millis_per_frame(self.numerator_spec(), self.denominator_spec()),
    {
        if self.fps_numerator == 0 {
            return u32::MAX;
        }
        let den = self.fps_denominator as u64;
        assert(1000 * den <= 1000 * 0xffff_ffff) by (nonlinear_arith)
            requires
                den <= 0xffff_ffff,
        ;
        let q: u64 = 1000 * den / (self.fps_numerator as u64);
        if q > u32::MAX as u64 {
            u32::MAX
        } else {
            q as u32
        }
    }

    /// The frame that `time` falls in, counted from time zero: the time's
    /// seconds times the integer rate, rounded toward zero.
    pub fn frames_from_time(&self, time: &Time) -> (r: i64)
        ensures
            r == frames_at(time@, self.framerate_spec() as int),
    {
        let ms = time.to_milliseconds();
        let rate = self.framerate as i128;
        let neg = ms < 0;
        let mag: i128 = if neg { -(ms as i128) } else { ms as i128 };
        assert(0 <= mag * rate <= 0x8000_0000_0000_0000 * 65535) by (nonlinear_arith)
            requires
                0 <= mag <= 0x8000_0000_0000_0000,
                0 <= rate <= 65535,
        ;
        let q: i128 = mag * rate / 1000;
        let t: i128 = if neg { -q } else { q };
        proof {
            if neg {
                assert(ms * rate == -(mag * rate)) by (nonlinear_arith)
                    requires
                        mag == -ms,
                ;
            } else {
                assert(ms * rate == mag * rate);
            }
        }
        if t > i64::MAX as i128 {
            i64::MAX
        } else if t < i64::MIN as i128 {
            i64::MIN
        } else {
            t as i64
        }
    }

    /// The time of frame `frames`: the frame count divided by the integer
    /// rate, to the nearest millisecond.
    pub fn time_from_frames(&self, frames: i64) -> (r: Time)
        ensures
            r@ == time_of_frames(frames as int, self.framerate_spec() as int),
    {
        let rate = self.framerate as i128;
        if rate == 0 {
            if frames > 0 {
                return Time::from_milliseconds(i64::MAX);
            } else if frames < 0 {
                return Time::from_milliseconds(i64::MIN);
            } else {
                return Time::from_milliseconds(0);
            }
        }
        let neg = frames < 0;
        let mag: i128 = if neg { -(frames as i128) } else { frames as i128 };
        assert(0 <= 2000 * mag <= 2000 * 0x8000_0000_0000_0000) by (nonlinear_arith)
            requires
                0 <= mag <= 0x8000_0000_0000_0000,
        ;
        let q: i128 = (2000 * mag + rate) / (2 * rate);
        let t: i128 = if neg { -q } else { q };
        proof {
            if neg {
                assert(-2 * (frames * 1000) == 2000 * mag);
            } else {
                assert(2 * (frames * 1000) == 2000 * mag);
            }
        }
        if t > i64::MAX as i128 {
            Time::from_milliseconds(i64::MAX)
        } else if t < i64::MIN as i128 {
            Time::from_milliseconds(i64::MIN)
        } else {
            Time::from_milliseconds(t as i64)
        }
    }
}

/// Whether rounding the time of frame `n` to the nearest millisecond keeps
/// it within the frame: the rounded time is not before the frame's exact
/// start and less than one second after it.
pub open spec fn rounding_stays_in_frame(n: int, rate: int) -> bool {
    let rem = (1000 * n) % rate;
    rem == 0 || (2 * rem >= rate && rate - rem < 1000)
}

/// A frame count of zero or more, turned into a time and back into a frame
/// count, is the same count, wherever the time so rounded stays within its
/// frame and fits in a `Time`.
pub proof fn lemma_frames_round_trip(tb: Timebase, n: int)
    requires
        tb.framerate_spec() > 0,
        0 <= n <= i64::MAX,
        round_div(1000 * n, tb.framerate_spec() as int) <= i64::MAX,
        rounding_stays_in_frame(n, tb.framerate_spec() as int),
    ensures
        frames_at(time_of_frames(n, tb.framerate_spec() as int), tb.framerate_spec() as int) == n,
{
    let r = tb.framerate_spec() as int;
    let a = 1000 * n;
    let q = a / r;
    let rem = a % r;
    let m = round_div(a, r);
    assert(a == q * r + rem && 0 <= rem < r) by (nonlinear_arith)
        requires
            r > 0,
            q == a / r,
            rem == a % r,
    ;
    assert(0 <= a) by (nonlinear_arith)
        requires
            0 <= n,
            a == 1000 * n,
    ;
    assert(m == (2 * a + r) / (2 * r));
    if rem == 0 {
        assert(m == q) by (nonlinear_arith)
            requires
                r > 0,
                a == q * r,
                m == (2 * a + r) / (2 * r),
        ;
        assert(m * r == a);
    } else {
        assert(m == q + 1) by (nonlinear_arith)
            requires
                r > 0,
                a == q * r + rem,
                2 * rem >= r,
                rem < r,
                m == (2 * a + r) / (2 * r),
        ;
        assert(m * r == a - rem + r) by (nonlinear_arith)
            requires
                m == q + 1,
                a == q * r + rem,
        ;
    }
    assert(0 <= m * r) by (nonlinear_arith)
        requires
            0 <= a,
            a <= m * r,
    ;
    assert(time_of_frames(n, r) == m);
    assert((m * r) / 1000 == n) by (nonlinear_arith)
        requires
            a == 1000 * n,
            a <= m * r < a + 1000,
    ;
}

impl Default for Timebase {
    /// 24 frames per second.
    fn default() -> (r: Timebase)
        ensures
            r.numerator_spec() == 24,
            r.denominator_spec() == 1,
            r.framerate_spec() == 24,
            r.dropframe_spec(),
    {
        let r = Timebase::new(24, 1);
        assert((2 * 24 + 1) / (2 * 1) == 24);
        r
    }
}

} // verus!
