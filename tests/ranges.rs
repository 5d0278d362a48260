use cx_studio_core::{Time, TimeRange, TimeRangeMutableSupport, TimeRangeSupport};

fn secs(s: i64) -> Time {
    Time::from_milliseconds(s * 1000)
}

#[test]
fn new_reorders_its_ends() {
    let r = TimeRange::new(secs(5), secs(2));
    assert_eq!(r.start, secs(2));
    assert_eq!(r.end, secs(5));
    assert_eq!(r.duration().to_milliseconds(), 3000);
    let same = TimeRange::new(secs(2), secs(5));
    assert_eq!(same.start, secs(2));
    assert_eq!(same.end, secs(5));
}

#[test]
fn touching_ranges_do_not_overlap() {
    let a = TimeRange::new(secs(0), secs(5));
    let b = TimeRange::new(secs(5), secs(10));
    assert!(!a.is_overlapped_with(&b));
    assert!(!b.is_overlapped_with(&a));
    let c = TimeRange::new(secs(4), secs(10));
    assert!(a.is_overlapped_with(&c));
    assert!(c.is_overlapped_with(&a));
}

#[test]
fn pairs_and_default() {
    let r = TimeRange::from((secs(9), secs(1)));
    assert_eq!(r.to_pair(), (secs(1), secs(9)));
    let p: (Time, Time) = r.into();
    assert_eq!(p, (secs(1), secs(9)));
    let d = TimeRange::default();
    assert_eq!(d.start, Time::zero());
    assert_eq!(d.duration(), Time::zero());
}

struct Clip {
    start: Time,
    length: Time,
}

impl TimeRangeSupport for Clip {
    fn start_spec(&self) -> Time {
        self.start
    }

    fn duration_spec(&self) -> Time {
        self.length
    }

    fn start_time(&self) -> Time {
        self.start
    }

    fn duration_time(&self) -> Time {
        self.length
    }
}

impl TimeRangeMutableSupport for Clip {
    fn set_start_time(&mut self, start_time: Time) {
        self.start = start_time;
    }

    fn set_duration_time(&mut self, duration_time: Time) {
        self.length = duration_time;
    }
}

#[test]
fn support_derives_end_and_overlap() {
    let a = Clip { start: secs(0), length: secs(5) };
    let b = Clip { start: secs(5), length: secs(5) };
    let c = Clip { start: secs(4), length: secs(1) };
    assert_eq!(a.end_time(), secs(5));
    assert!(!a.is_overlapped_with(&b));
    assert!(a.is_overlapped_with(&c));
    let r = b.time_range();
    assert_eq!((r.start, r.end), (secs(5), secs(10)));
}

#[test]
fn setting_an_early_end_gives_zero_duration() {
    let mut a = Clip { start: secs(3), length: secs(5) };
    a.set_end_time(secs(10));
    assert_eq!(a.duration_time(), secs(7));
    a.set_end_time(secs(3));
    assert_eq!(a.duration_time(), Time::zero());
    a.set_end_time(secs(1));
    assert_eq!(a.duration_time(), Time::zero());
    a.set_time_range(TimeRange::new(secs(20), secs(12)));
    assert_eq!(a.start_time(), secs(12));
    assert_eq!(a.duration_time(), secs(8));
}
