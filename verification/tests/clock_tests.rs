use auto_wallpaper::clock::{Boundaries, ClockTime, TimeOfDay};

fn at(h: u32, m: u32, s: u32) -> ClockTime {
    ClockTime::from_hms(h, m, s).unwrap()
}

#[test]
fn from_hms_counts_seconds() {
    assert_eq!(ClockTime::from_hms(0, 0, 0), Some(ClockTime { secs: 0, frac: 0 }));
    assert_eq!(ClockTime::from_hms(8, 30, 15), Some(ClockTime { secs: 30_615, frac: 0 }));
    assert_eq!(ClockTime::from_hms(23, 59, 59), Some(ClockTime { secs: 86_399, frac: 0 }));
}

#[test]
fn from_hms_rejects_out_of_range() {
    assert_eq!(ClockTime::from_hms(24, 0, 0), None);
    assert_eq!(ClockTime::from_hms(0, 60, 0), None);
    assert_eq!(ClockTime::from_hms(0, 0, 60), None);
    assert_eq!(ClockTime::from_hms(u32::MAX, u32::MAX, u32::MAX), None);
}

#[test]
fn from_parts_checks_both_limits() {
    assert_eq!(ClockTime::from_parts(86_399, 1_999_999_999), Some(ClockTime { secs: 86_399, frac: 1_999_999_999 }));
    assert_eq!(ClockTime::from_parts(86_400, 0), None);
    assert_eq!(ClockTime::from_parts(0, 2_000_000_000), None);
}

#[test]
fn hour_minute_second_read_back() {
    let t = at(8, 30, 15);
    assert_eq!((t.hour(), t.minute(), t.second()), (8, 30, 15));
}

#[test]
fn is_before_orders_by_seconds_then_fraction() {
    let a = ClockTime { secs: 10, frac: 5 };
    let b = ClockTime { secs: 10, frac: 6 };
    let c = ClockTime { secs: 11, frac: 0 };
    assert!(a.is_before(&b));
    assert!(b.is_before(&c));
    assert!(a.is_before(&c));
    assert!(!b.is_before(&a));
    assert!(!a.is_before(&a));
}

#[test]
fn classify_scenarios() {
    let bounds = Boundaries::standard();
    assert_eq!(bounds.classify(at(5, 0, 0)), (TimeOfDay::Evening, TimeOfDay::Night));
    assert_eq!(bounds.classify(at(21, 0, 0)), (TimeOfDay::Evening, TimeOfDay::Night));
    assert_eq!(bounds.classify(at(10, 0, 0)), (TimeOfDay::Morning, TimeOfDay::Day));
}

#[test]
fn classify_at_the_boundaries() {
    let bounds = Boundaries::standard();
    assert_eq!(bounds.classify(at(0, 0, 0)).1, TimeOfDay::Night);
    assert_eq!(bounds.classify(at(5, 59, 59)).1, TimeOfDay::Night);
    assert_eq!(bounds.classify(at(6, 0, 0)), (TimeOfDay::Night, TimeOfDay::Morning));
    assert_eq!(bounds.classify(at(8, 59, 59)).1, TimeOfDay::Morning);
    assert_eq!(bounds.classify(at(9, 0, 0)), (TimeOfDay::Morning, TimeOfDay::Day));
    assert_eq!(bounds.classify(at(15, 59, 59)).1, TimeOfDay::Day);
    assert_eq!(bounds.classify(at(16, 0, 0)), (TimeOfDay::Day, TimeOfDay::Evening));
    assert_eq!(bounds.classify(at(19, 59, 59)).1, TimeOfDay::Evening);
    assert_eq!(bounds.classify(at(20, 0, 0)), (TimeOfDay::Evening, TimeOfDay::Night));
    assert_eq!(bounds.classify(at(23, 59, 59)).1, TimeOfDay::Night);
}

#[test]
fn every_second_of_the_day_has_one_state() {
    let bounds = Boundaries::standard();
    let mut counts = [0u32; 4];
    for secs in 0..86_400u32 {
        let now = ClockTime::from_parts(secs, 0).unwrap();
        let (previous, state) = bounds.classify(now);
        assert_eq!(previous, state.previous());
        let expected = if secs < 21_600 || secs >= 72_000 {
            TimeOfDay::Night
        } else if secs < 32_400 {
            TimeOfDay::Morning
        } else if secs < 57_600 {
            TimeOfDay::Day
        } else {
            TimeOfDay::Evening
        };
        assert_eq!(state, expected);
        match state {
            TimeOfDay::Night => counts[0] += 1,
            TimeOfDay::Morning => counts[1] += 1,
            TimeOfDay::Day => counts[2] += 1,
            TimeOfDay::Evening => counts[3] += 1,
        }
    }
    assert_eq!(counts, [36_000, 10_800, 25_200, 14_400]);
}

#[test]
fn classify_with_other_boundaries() {
    let bounds = Boundaries::new(at(1, 0, 0), at(2, 0, 0), at(3, 0, 0), at(4, 0, 0)).unwrap();
    assert_eq!(bounds.classify(at(0, 30, 0)), (TimeOfDay::Evening, TimeOfDay::Night));
    assert_eq!(bounds.classify(at(1, 30, 0)), (TimeOfDay::Night, TimeOfDay::Morning));
    assert_eq!(bounds.classify(at(2, 30, 0)), (TimeOfDay::Morning, TimeOfDay::Day));
    assert_eq!(bounds.classify(at(3, 30, 0)), (TimeOfDay::Day, TimeOfDay::Evening));
    assert_eq!(bounds.classify(at(12, 0, 0)), (TimeOfDay::Evening, TimeOfDay::Night));
}

#[test]
fn boundaries_must_be_in_order() {
    assert!(Boundaries::new(at(6, 0, 0), at(9, 0, 0), at(16, 0, 0), at(20, 0, 0)).is_some());
    assert_eq!(Boundaries::new(at(6, 0, 0), at(9, 0, 0), at(16, 0, 0), at(20, 0, 0)), Some(Boundaries::standard()));
    assert!(Boundaries::new(at(9, 0, 0), at(6, 0, 0), at(16, 0, 0), at(20, 0, 0)).is_none());
    assert!(Boundaries::new(at(6, 0, 0), at(6, 0, 0), at(16, 0, 0), at(20, 0, 0)).is_none());
    assert!(Boundaries::new(at(6, 0, 0), at(9, 0, 0), at(20, 0, 0), at(16, 0, 0)).is_none());
}

#[test]
fn each_state_has_its_wallpaper() {
    assert_eq!(TimeOfDay::Night.wallpaper(), "night.jpg");
    assert_eq!(TimeOfDay::Morning.wallpaper(), "morning.jpg");
    assert_eq!(TimeOfDay::Day.wallpaper(), "day.jpg");
    assert_eq!(TimeOfDay::Evening.wallpaper(), "evening.jpg");
}

#[test]
fn previous_walks_the_cycle_backwards() {
    assert_eq!(TimeOfDay::Night.previous(), TimeOfDay::Evening);
    assert_eq!(TimeOfDay::Evening.previous(), TimeOfDay::Day);
    assert_eq!(TimeOfDay::Day.previous(), TimeOfDay::Morning);
    assert_eq!(TimeOfDay::Morning.previous(), TimeOfDay::Night);
}
