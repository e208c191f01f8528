use upstox_market::calendar::{
    format_day, ist_date_is_defined, ist_date_of, parse_day, Clock, FIRST_DAY, LAST_DAY,
};
use upstox_market::checks::minute_of_day;

#[test]
fn days_are_numbered_from_year_one() {
    assert_eq!(parse_day("0001-01-01"), Some(1));
    assert_eq!(parse_day("1970-01-01"), Some(719163));
    assert_eq!(parse_day("2026-9-4"), parse_day("2026-09-04"));
    assert_eq!(parse_day("2026-02-30"), None);
    assert_eq!(parse_day("24-09-2026x"), None);
    assert_eq!(parse_day(""), None);
    assert_eq!(format_day(719163), "1970-01-01");
    assert_eq!(format_day(1), "0001-01-01");
    assert_eq!(format_day(-365), "0000-01-01");
    assert_eq!(format_day(3652059), "9999-12-31");
    assert_eq!(format_day(3652060), "+10000-01-01");
    assert_eq!(parse_day(&format_day(740000)), Some(740000));
    assert_eq!(format_day(LAST_DAY), "+262142-12-31");
    assert_eq!(format_day(FIRST_DAY), "-262143-01-01");
}

#[test]
fn moments_fall_on_ist_dates() {
    // 18:30 UTC is midnight in India.
    assert_eq!(ist_date_of(66_599_999), Some(719163));
    assert_eq!(ist_date_of(66_600_000), Some(719164));
    assert_eq!(ist_date_of(0), Some(719163));
    assert_eq!(ist_date_of(-19_800_001), Some(719162));
    assert_eq!(ist_date_of(i64::MAX), None);
    assert_eq!(ist_date_of(i64::MIN), None);
    assert!(ist_date_is_defined(0));
    // The calendar ends at 24:00 UTC of its last day.
    let end: i64 = 8_210_266_876_800_000;
    assert!(ist_date_is_defined(end - 19_800_001));
    assert_eq!(ist_date_of(end - 19_800_001), Some(LAST_DAY));
    assert!(!ist_date_is_defined(end - 19_800_000));
    assert!(!ist_date_is_defined(end - 1));
    assert!(ist_date_is_defined(end));
    assert_eq!(ist_date_of(end), None);
    // And begins at 00:00 UTC of its first.
    let start: i64 = (FIRST_DAY as i64 - 719163) * 86_400_000;
    assert_eq!(ist_date_of(start), Some(FIRST_DAY));
    assert_eq!(ist_date_of(start - 1), None);
}

fn clock(date: &str, hour: u32, minute: u32, second: u32) -> Clock {
    Clock::new(parse_day(date).unwrap(), hour, minute, second).unwrap()
}

#[test]
fn clocks_show_only_times() {
    assert!(Clock::new(719163, 23, 59, 59).is_some());
    assert!(Clock::new(719163, 24, 0, 0).is_none());
    assert!(Clock::new(719163, 0, 60, 0).is_none());
    assert!(Clock::new(719163, 0, 0, 60).is_none());
    assert!(Clock::new(LAST_DAY + 1, 0, 0, 0).is_none());
    assert!(Clock::new(FIRST_DAY - 1, 0, 0, 0).is_none());
}

#[test]
fn timestamps_give_their_minute_back() {
    let c = clock("2026-09-24", 9, 5, 7);
    assert_eq!(c.timestamp(), "2026-09-24 09:05:07");
    assert_eq!(minute_of_day(&c.timestamp()), Some(545));
    assert_eq!(clock("2026-09-24", 15, 31, 0).timestamp(), "2026-09-24 15:31:00");
}

#[test]
fn weekdays_and_hours() {
    // 2026-09-24 is a Thursday.
    assert!(clock("2026-09-24", 9, 15, 0).weekday_minute_between(555, 931));
    assert!(!clock("2026-09-24", 9, 14, 59).weekday_minute_between(555, 931));
    assert!(clock("2026-09-24", 15, 31, 59).weekday_minute_between(555, 931));
    assert!(!clock("2026-09-24", 15, 32, 0).weekday_minute_between(555, 931));
    assert!(clock("2026-09-25", 10, 0, 0).weekday_minute_between(555, 931));
    assert!(!clock("2026-09-26", 10, 0, 0).weekday_minute_between(555, 931));
    assert!(!clock("2026-09-27", 10, 0, 0).weekday_minute_between(555, 931));
    assert!(clock("2026-09-28", 10, 0, 0).weekday_minute_between(555, 931));
}

#[test]
fn sleep_ends_two_seconds_past_the_minute() {
    assert_eq!(clock("2026-09-24", 9, 0, 0).seconds_to_next_minute(), 62);
    assert_eq!(clock("2026-09-24", 9, 0, 2).seconds_to_next_minute(), 60);
    assert_eq!(clock("2026-09-24", 9, 0, 59).seconds_to_next_minute(), 3);
}
