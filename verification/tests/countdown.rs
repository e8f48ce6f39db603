use rusty_blitzcrank::countdown::{
    breakdown_time, countdown_activity, countdown_text, presidency_end, whole_seconds_between,
    TimeData, DAY_IN_SECONDS, HOUR_IN_SECONDS, MIN_IN_SECONDS, MONTH_IN_SECONDS, WEEK_IN_SECONDS,
    YEAR_IN_SECONDS,
};

fn recompose(t: &TimeData) -> i64 {
    t.years * YEAR_IN_SECONDS
        + t.months * MONTH_IN_SECONDS
        + t.weeks * WEEK_IN_SECONDS
        + t.days * DAY_IN_SECONDS
        + t.hours * HOUR_IN_SECONDS
        + t.minutes * MIN_IN_SECONDS
        + t.seconds
}

#[test]
fn unit_lengths() {
    assert_eq!(YEAR_IN_SECONDS, 60 * 60 * 24 * 365);
    assert_eq!(MONTH_IN_SECONDS, YEAR_IN_SECONDS / 12);
    assert_eq!(WEEK_IN_SECONDS, MONTH_IN_SECONDS / 4);
    assert_eq!(DAY_IN_SECONDS, WEEK_IN_SECONDS / 7);
    assert_eq!(HOUR_IN_SECONDS, DAY_IN_SECONDS / 24);
    assert_eq!(MIN_IN_SECONDS, HOUR_IN_SECONDS / 60);
}

#[test]
fn breakdown_of_one_year_and_change() {
    let t = breakdown_time(YEAR_IN_SECONDS + 2 * MONTH_IN_SECONDS + 3 * HOUR_IN_SECONDS + 7);
    assert_eq!(
        t,
        TimeData { years: 1, months: 2, weeks: 0, days: 0, hours: 3, minutes: 0, seconds: 7 }
    );
}

#[test]
fn breakdown_of_zero() {
    let t = breakdown_time(0);
    assert_eq!(
        t,
        TimeData { years: 0, months: 0, weeks: 0, days: 0, hours: 0, minutes: 0, seconds: 0 }
    );
}

#[test]
fn breakdown_of_negative_rounds_toward_zero() {
    let t = breakdown_time(-(YEAR_IN_SECONDS + 70));
    assert_eq!(
        t,
        TimeData { years: -1, months: 0, weeks: 0, days: 0, hours: 0, minutes: -1, seconds: -5 }
    );
}

#[test]
fn breakdown_can_show_seven_days() {
    let t = breakdown_time(7 * DAY_IN_SECONDS);
    assert_eq!(t.weeks, 0);
    assert_eq!(t.days, 7);
}

#[test]
fn breakdown_recomposes_on_samples() {
    for total in [0i64, 1, 64, 65, 3910, 93856, 656999, 657000, 2627999, 31536000, 123456789, -1, -987654321, i64::MAX, i64::MIN] {
        let t = breakdown_time(total);
        assert_eq!(recompose(&t), total);
        assert!(t.seconds.abs() < 65);
        assert!(t.minutes.abs() <= 60 && t.hours.abs() <= 24 && t.days.abs() <= 7);
        assert!(t.weeks.abs() <= 3 && t.months.abs() <= 11);
    }
}

#[test]
fn whole_seconds_rounds_toward_zero() {
    assert_eq!(whole_seconds_between(100, 50, 0), 50);
    assert_eq!(whole_seconds_between(100, 50, 300_000_000), 49);
    assert_eq!(whole_seconds_between(100, 100, 1), 0);
    assert_eq!(whole_seconds_between(100, 101, 500_000_000), -1);
    assert_eq!(whole_seconds_between(100, 150, 0), -50);
}

#[test]
fn countdown_text_formats_all_parts() {
    let t = TimeData { years: 3, months: 1, weeks: 2, days: 0, hours: 5, minutes: -4, seconds: 10 };
    assert_eq!(
        countdown_text(&t),
        "3 years, 1 months, 2 weeks, 0 days, 5 hours, -4 minutes, and 10 seconds until Trump's presidency is over"
    );
}

#[test]
fn presidency_end_is_parsed_by_chrono() {
    assert_eq!(presidency_end(), Some(1863622800));
}

#[test]
fn countdown_activity_one_day_before() {
    let end = presidency_end().unwrap();
    let text = countdown_activity(end, end - 2 * DAY_IN_SECONDS - 1, 0);
    assert_eq!(
        text,
        "0 years, 0 months, 0 weeks, 2 days, 0 hours, 0 minutes, and 1 seconds until Trump's presidency is over"
    );
}

#[test]
fn whole_seconds_agree_with_chrono() {
    let end = chrono::DateTime::from_timestamp(1863622800, 0).unwrap();
    for (secs, nanos) in [(1863622800i64, 0u32), (1700000000, 999_999_999), (1863622799, 1), (1863622801, 5), (1900000000, 123), (0, 0)] {
        let now = chrono::DateTime::from_timestamp(secs, nanos).unwrap();
        assert_eq!(whole_seconds_between(1863622800, secs, nanos), (end - now).num_seconds());
    }
}

#[test]
fn countdown_at_the_end_is_all_zero() {
    let end = presidency_end().unwrap();
    assert_eq!(
        countdown_activity(end, end, 0),
        "0 years, 0 months, 0 weeks, 0 days, 0 hours, 0 minutes, and 0 seconds until Trump's presidency is over"
    );
}

#[test]
fn whole_seconds_count_leap_seconds_as_chrono_does() {
    let end = chrono::DateTime::from_timestamp(1863622800, 0).unwrap();
    for (secs, nanos) in [
        (1863622799i64, 1_500_000_000u32),
        (1863622859, 1_200_000_000),
        (1863536399, 1_999_999_999),
        (1863622799, 1_000_000_000),
    ] {
        let now = chrono::DateTime::from_timestamp(secs, nanos).unwrap();
        assert_eq!(whole_seconds_between(1863622800, secs, nanos), (end - now).num_seconds());
    }
    assert_eq!(whole_seconds_between(1863622800, 1863622799, 1_500_000_000), 0);
    assert_eq!(whole_seconds_between(1863622800, 1863622859, 1_200_000_000), -60);
}
