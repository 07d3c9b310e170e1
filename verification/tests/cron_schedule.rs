//! The cron-expression parser and matcher.

use authcache::cron::{CronSchedule, DateParts};
use chrono::{Datelike, Timelike};

fn parts_of(dt: &chrono::NaiveDateTime) -> DateParts {
    DateParts {
        minute: dt.minute(),
        hour: dt.hour(),
        day: dt.day(),
        month: dt.month(),
        weekday: dt.weekday().num_days_from_sunday(),
    }
}

#[test]
fn parse_every_minute() {
    let schedule = CronSchedule::parse("* * * * *").unwrap();
    assert_eq!(schedule.minutes.len(), 60);
    assert_eq!(schedule.hours.len(), 24);
}

#[test]
fn parse_daily_at_8() {
    let schedule = CronSchedule::parse("0 8 * * *").unwrap();
    assert_eq!(schedule.minutes, vec![0]);
    assert_eq!(schedule.hours, vec![8]);
}

#[test]
fn parse_every_2_hours() {
    let schedule = CronSchedule::parse("0 */2 * * *").unwrap();
    assert_eq!(schedule.hours, vec![0, 2, 4, 6, 8, 10, 12, 14, 16, 18, 20, 22]);
}

#[test]
fn matches_works() {
    let schedule = CronSchedule::parse("30 9 * * *").unwrap();
    let dt = chrono::NaiveDate::from_ymd_opt(2026, 2, 22)
        .unwrap()
        .and_hms_opt(9, 30, 0)
        .unwrap();
    assert!(schedule.matches(&parts_of(&dt)));

    let dt2 = chrono::NaiveDate::from_ymd_opt(2026, 2, 22)
        .unwrap()
        .and_hms_opt(10, 30, 0)
        .unwrap();
    assert!(!schedule.matches(&parts_of(&dt2)));
}

#[test]
fn invalid_expression_rejected() {
    assert!(CronSchedule::parse("bad").is_err());
    assert!(CronSchedule::parse("* * *").is_err());
}

#[test]
fn parse_ranges_and_lists() {
    let schedule = CronSchedule::parse("0 9 1,15 * 1-5").unwrap();
    assert_eq!(schedule.days_of_month, vec![1, 15]);
    assert_eq!(schedule.days_of_week, vec![1, 2, 3, 4, 5]);
    assert_eq!(schedule.months.len(), 12);
}

#[test]
fn rejects_out_of_range_and_zero_step() {
    assert!(CronSchedule::parse("60 * * * *").is_err());
    assert!(CronSchedule::parse("*/0 * * * *").is_err());
    assert!(CronSchedule::parse("* * * * 7").is_err());
    assert!(CronSchedule::parse("5-3 * * * *").is_err());
}

#[test]
fn step_with_explicit_start() {
    let schedule = CronSchedule::parse("* 3/5 * * *").unwrap();
    assert_eq!(schedule.hours, vec![3, 8, 13, 18, 23]);
}
