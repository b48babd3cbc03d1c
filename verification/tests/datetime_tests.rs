use deadline_tracker::datetime::{Datetime, TimeDiff};

#[test]
fn simplified_month_model_diff() {
    // The 30-day-month model: from Feb 28 to Mar 1 counts (60 + 1) - (30 + 28)
    // = 3 days, not the calendar-correct 1 day.
    let a = Datetime::new(2025, 3, 1, 0, 0);
    let b = Datetime::new(2025, 2, 28, 0, 0);
    let d = a.time_diff(&b);
    assert_eq!(d.days, 3);
    assert_eq!(d.hours, 0);
    assert_eq!(d.minutes, 0);
    assert!(!d.is_negative);
}

#[test]
fn diff_sign_and_decomposition() {
    let a = Datetime::new(2025, 1, 5, 9, 0);
    let b = Datetime::new(2025, 1, 6, 10, 30);
    let d = a.time_diff(&b);
    assert!(d.is_negative);
    assert_eq!(d.days, 1);
    assert_eq!(d.hours, 1);
    assert_eq!(d.minutes, 30);
    let e = b.time_diff(&a);
    assert!(!e.is_negative);
    assert_eq!((e.days, e.hours, e.minutes), (1, 1, 30));
}

#[test]
fn total_minutes_formula() {
    // (year*365 + (month-1)*30 + day) * 1440 + hour*60 + minute
    let d = Datetime::new(2025, 1, 10, 9, 0);
    assert_eq!(d.to_total_minutes(), (2025i64 * 365 + 0 + 10) * 1440 + 9 * 60);
}

#[test]
fn datetime_text_rendering() {
    let d = Datetime::new(2025, 1, 5, 9, 0);
    assert_eq!(d.to_string(), "2025-01-05 09:00");
    let d2 = Datetime::new(3, 12, 31, 23, 59);
    assert_eq!(d2.to_string(), "0003-12-31 23:59");
}

#[test]
fn datetime_parse_round_trip() {
    let d = Datetime::new(2025, 6, 15, 18, 45);
    let parsed = Datetime::from_string(&d.to_string()).unwrap();
    assert_eq!(parsed, d);
}

#[test]
fn datetime_parse_trims_and_validates() {
    assert_eq!(
        Datetime::from_string("  2025-01-05 09:00  "),
        Some(Datetime::new(2025, 1, 5, 9, 0))
    );
    // Out-of-range fields are rejected.
    assert_eq!(Datetime::from_string("2025-13-05 09:00"), None);
    assert_eq!(Datetime::from_string("2025-01-32 09:00"), None);
    assert_eq!(Datetime::from_string("2025-01-05 24:00"), None);
    assert_eq!(Datetime::from_string("2025-01-05 09:60"), None);
    assert_eq!(Datetime::from_string("2025-00-05 09:00"), None);
    // Only the exact fixed-width shape is accepted.
    assert_eq!(Datetime::from_string("2025-1-5 09:00"), None);
    assert_eq!(Datetime::from_string("2025-01-05T09:00"), None);
    assert_eq!(Datetime::from_string("2025-01-05 09:00 extra"), None);
    assert_eq!(Datetime::from_string(""), None);
}

#[test]
fn datetime_ordering() {
    let early = Datetime::new(2025, 1, 5, 9, 0);
    let late = Datetime::new(2025, 1, 10, 9, 0);
    assert_eq!(early.cmp(&late), std::cmp::Ordering::Less);
    assert_eq!(late.cmp(&early), std::cmp::Ordering::Greater);
    assert_eq!(early.cmp(&early.clone()), std::cmp::Ordering::Equal);
}

#[test]
fn now_is_well_formed() {
    let now = Datetime::now();
    assert!((1..=12).contains(&now.month));
    assert!((1..=31).contains(&now.day));
    assert!(now.hour < 24);
    assert!(now.minute < 60);
}

#[test]
fn time_diff_minutes_and_text() {
    let d = TimeDiff { days: 3, hours: 4, minutes: 5, is_negative: false };
    assert_eq!(d.to_minutes(), 3 * 1440 + 4 * 60 + 5);
    assert_eq!(d.to_string(), "3d 4h 5m");
    let n = TimeDiff { days: 1, hours: 2, minutes: 3, is_negative: true };
    assert_eq!(n.to_minutes(), -(1440 + 120 + 3));
    assert_eq!(n.to_string(), "-1d 2h 3m");
}
