use cx_studio_core::{Time, Timestamp, TimestampError};

#[test]
fn timestamp_from_time() {
    let ts = Timestamp::from_time(Time::from_milliseconds(3_661_500));
    assert_eq!(ts, Timestamp::new(1, 1, 1, 500));
    assert_eq!(ts.to_string(), "01:01:01.500");
    assert_eq!(Timestamp::parse("01:01:01.500"), Ok(ts));
    assert_eq!(ts.to_time().to_milliseconds(), 3_661_500);
}

#[test]
fn timestamp_wraps_the_day() {
    let ts = Timestamp::from_time(Time::from_milliseconds(-1));
    assert_eq!(ts, Timestamp::new(23, 59, 59, 999));
    assert_eq!(ts.to_time().to_milliseconds(), 86_399_999);
    let next = Timestamp::from_time(Time::from_milliseconds(86_400_000 + 61_001));
    assert_eq!(next, Timestamp::new(0, 1, 1, 1));
}

#[test]
fn timestamp_text_is_padded() {
    assert_eq!(Timestamp::new(0, 0, 0, 0).to_string(), "00:00:00.000");
    assert_eq!(Timestamp::new(9, 8, 7, 6).to_string(), "09:08:07.006");
    assert_eq!(Timestamp::new(255, 100, 61, 65535).to_string(), "255:100:61.65535");
    assert_eq!(Timestamp::default(), Timestamp::new(0, 0, 0, 0));
}

#[test]
fn strict_parse_checks_ranges() {
    assert_eq!(Timestamp::parse("24:00:00.000"), Err(TimestampError::HourOutOfRange(24)));
    assert_eq!(Timestamp::parse("23:60:00.000"), Err(TimestampError::MinuteOutOfRange(60)));
    assert_eq!(Timestamp::parse("23:59:60.000"), Err(TimestampError::SecondOutOfRange(60)));
    assert_eq!(Timestamp::parse("23:59:59.999"), Ok(Timestamp::new(23, 59, 59, 999)));
}

#[test]
fn strict_parse_checks_the_pattern() {
    assert_eq!(Timestamp::parse("01:01:01.5"), Err(TimestampError::Pattern));
    assert_eq!(Timestamp::parse("01-01-01.500"), Err(TimestampError::Pattern));
    assert_eq!(Timestamp::parse("01:01:01:500"), Err(TimestampError::Pattern));
    assert_eq!(Timestamp::parse("0a:01:01.500"), Err(TimestampError::Pattern));
    assert_eq!(Timestamp::parse(""), Err(TimestampError::Pattern));
}

#[test]
fn loose_from_string() {
    assert_eq!(Timestamp::from_string("01:01:01.500"), Some(Timestamp::new(1, 1, 1, 500)));
    assert_eq!(Timestamp::from_string("99-99 99/999"), Some(Timestamp::new(99, 99, 99, 999)));
    assert_eq!(Timestamp::from_string("01:01:01.5"), None);
    assert_eq!(Timestamp::from_string("01:01:0105000"), None);
    assert_eq!(Timestamp::from_string("01:01:01.50a"), None);
}

#[test]
fn text_reads_back_strictly() {
    for m in [0i64, 1, 59_999, 3_599_999, 45_296_789, 86_399_999] {
        let ts = Timestamp::from_time(Time::from_milliseconds(m));
        assert_eq!(Timestamp::parse(&ts.to_string()), Ok(ts));
        assert_eq!(Timestamp::from_string(&ts.to_string()), Some(ts));
    }
}
