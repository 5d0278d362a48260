use cx_studio_core::{Time, Timebase, Timecode};

#[test]
fn timebase_rounds_the_rate() {
    let pal = Timebase::new(25, 1);
    assert_eq!(pal.framerate(), 25);
    assert!(pal.dropframe());
    assert_eq!(pal.fps(), (25, 1));
    let film = Timebase::new(23976, 1000);
    assert_eq!(film.framerate(), 24);
    assert!(!film.dropframe());
    let ntsc = Timebase::new(2997, 100);
    assert_eq!(ntsc.framerate(), 30);
    assert!(!ntsc.dropframe());
    assert_eq!(Timebase::new(49, 2).framerate(), 25);
    assert_eq!(Timebase::new(u32::MAX, 1).framerate(), 65535);
    let d = Timebase::default();
    assert_eq!(d.framerate(), 24);
    assert!(d.dropframe());
}

#[test]
fn milliseconds_per_frame_truncates() {
    assert_eq!(Timebase::new(25, 1).milliseconds_per_frame(), 40);
    assert_eq!(Timebase::new(23976, 1000).milliseconds_per_frame(), 41);
    assert_eq!(Timebase::new(2997, 100).milliseconds_per_frame(), 33);
    assert_eq!(Timebase::new(0, 1).milliseconds_per_frame(), u32::MAX);
}

#[test]
fn frames_from_time_truncates() {
    let tb = Timebase::new(25, 1);
    assert_eq!(tb.frames_from_time(&Time::from_milliseconds(1000)), 25);
    assert_eq!(tb.frames_from_time(&Time::from_milliseconds(1039)), 25);
    assert_eq!(tb.frames_from_time(&Time::from_milliseconds(1040)), 26);
    assert_eq!(tb.frames_from_time(&Time::from_milliseconds(-1039)), -25);
    assert_eq!(tb.frames_from_time(&Time::from_milliseconds(i64::MAX)), i64::MAX / 40);
    let fast = Timebase::new(65535, 1);
    assert_eq!(fast.frames_from_time(&Time::from_milliseconds(i64::MAX)), i64::MAX);
    assert_eq!(fast.frames_from_time(&Time::from_milliseconds(i64::MIN)), i64::MIN);
}

#[test]
fn time_from_frames_rounds() {
    let tb = Timebase::new(24, 1);
    assert_eq!(tb.time_from_frames(1).to_milliseconds(), 42);
    assert_eq!(tb.time_from_frames(2).to_milliseconds(), 83);
    assert_eq!(tb.time_from_frames(-1).to_milliseconds(), -42);
    assert_eq!(Timebase::new(8, 1).time_from_frames(1).to_milliseconds(), 125);
    assert_eq!(Timebase::new(16, 1).time_from_frames(1).to_milliseconds(), 63);
    assert_eq!(Timebase::new(16, 1).time_from_frames(-1).to_milliseconds(), -63);
    let zero = Timebase::new(0, 1);
    assert_eq!(zero.time_from_frames(3).to_milliseconds(), i64::MAX);
    assert_eq!(zero.time_from_frames(-3).to_milliseconds(), i64::MIN);
    assert_eq!(zero.time_from_frames(0).to_milliseconds(), 0);
}

#[test]
fn frame_counts_round_trip() {
    let tb = Timebase::new(25, 1);
    for n in [0i64, 1, 2, 24, 25, 1_000, 123_456] {
        assert_eq!(tb.frames_from_time(&tb.time_from_frames(n)), n);
    }
    let film = Timebase::new(24, 1);
    for n in [0i64, 1, 3, 24, 100] {
        assert_eq!(film.frames_from_time(&film.time_from_frames(n)), n);
    }
    // Frame 2 at 24 fps rounds to 83 ms, which falls in frame 1.
    assert_eq!(film.frames_from_time(&film.time_from_frames(2)), 1);
}

#[test]
fn timecode_from_time() {
    let tc = Timecode::from_time(Time::from_milliseconds(3_661_000), Timebase::new(25, 1));
    assert_eq!((tc.hour_code, tc.minute_code, tc.second_code, tc.frame_code), (1, 1, 1, 0));
    assert_eq!(tc.to_time().to_milliseconds(), 3_661_000);
    let later = Timecode::from_time(Time::from_milliseconds(3_661_500), Timebase::new(25, 1));
    assert_eq!(later.frame_code, 13);
    assert_eq!(later.to_time().to_milliseconds(), 3_661_520);
}

#[test]
fn timecode_wraps_the_day() {
    let tb = Timebase::new(25, 1);
    let tc = Timecode::from_time(Time::from_milliseconds(-40), tb);
    assert_eq!((tc.hour_code, tc.minute_code, tc.second_code, tc.frame_code), (23, 59, 59, 24));
    let end = Timecode::from_time(Time::from_milliseconds(86_399_999), tb);
    assert_eq!((end.hour_code, end.minute_code, end.second_code, end.frame_code), (0, 0, 0, 0));
    let next_day = Timecode::from_time(Time::from_milliseconds(86_400_000 + 2_000), tb);
    assert_eq!((next_day.hour_code, next_day.second_code, next_day.frame_code), (0, 2, 0));
}

#[test]
fn timecode_new_and_to_time() {
    let tc = Timecode::new(0, 0, 2, 12, Timebase::new(24, 1));
    assert_eq!(tc.to_time().to_milliseconds(), 2500);
    let d = Timecode::default();
    assert_eq!((d.hour_code, d.minute_code, d.second_code, d.frame_code), (0, 0, 0, 0));
    assert_eq!(d.timebase.framerate(), 24);
}

#[test]
fn timecode_from_string() {
    let tb = Timebase::new(25, 1);
    let tc = Timecode::from_string("01:02:03:04", tb).unwrap();
    assert_eq!((tc.hour_code, tc.minute_code, tc.second_code, tc.frame_code), (1, 2, 3, 4));
    let odd = Timecode::from_string("99;59.59-00120", tb).unwrap();
    assert_eq!((odd.hour_code, odd.minute_code, odd.second_code, odd.frame_code), (99, 59, 59, 120));
    assert!(Timecode::from_string("01:02:03:65535", tb).is_some());
    assert!(Timecode::from_string("01:02:03:65536", tb).is_none());
    assert!(Timecode::from_string("01:02:03:4", tb).is_none());
    assert!(Timecode::from_string("1:02:03:04", tb).is_none());
    assert!(Timecode::from_string("01002:03:04", tb).is_none());
    assert!(Timecode::from_string("01:02:03:04x", tb).is_none());
    assert!(Timecode::from_string("", tb).is_none());
}

#[test]
fn timecode_lands_within_half_a_frame() {
    for (num, m) in [(25u32, 3_661_517i64), (24, 83), (30, 86_399_000), (60, -12_345)] {
        let tb = Timebase::new(num, 1);
        let back = Timecode::from_time(Time::from_milliseconds(m), tb).to_time().to_milliseconds();
        let day = m.rem_euclid(86_400_000);
        let rate = i64::from(tb.framerate());
        assert!(2 * rate * (back - day).abs() <= rate + 1000);
    }
}
