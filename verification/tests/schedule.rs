use hikaru::task::task_schedule::{ScheduleInterval, TaskSchedule};

#[test]
fn seconds_unit() {
    let ts = TaskSchedule::parse("3s").unwrap();
    assert!(matches!(ts.schedule, ScheduleInterval::Seconds(3)));
    assert_eq!(ts.to_seconds(), 3);
}

#[test]
fn minutes_unit() {
    let ts = TaskSchedule::parse("15m").unwrap();
    assert!(matches!(ts.schedule, ScheduleInterval::Minutes(15)));
    assert_eq!(ts.to_seconds(), 15 * 60);
}

#[test]
fn hours_unit() {
    let ts = TaskSchedule::parse("2h").unwrap();
    assert_eq!(ts.to_seconds(), 2 * 3600);
}

#[test]
fn days_unit() {
    let ts = TaskSchedule::parse("1d").unwrap();
    assert_eq!(ts.to_seconds(), 86400);
}

#[test]
fn months_unit() {
    let ts = TaskSchedule::parse("2mt").unwrap();
    assert!(matches!(ts.schedule, ScheduleInterval::Months(2)));
    assert_eq!(ts.to_seconds(), 2 * 2592000);
}

#[test]
fn years_unit() {
    let ts = TaskSchedule::parse("1y").unwrap();
    assert_eq!(ts.to_seconds(), 31536000);
}

#[test]
fn unknown_unit_falls_back_to_fifteen_minutes() {
    let ts = TaskSchedule::parse("10x").unwrap();
    assert!(matches!(ts.schedule, ScheduleInterval::Minutes(15)));
    assert_eq!(ts.to_seconds(), 900);
}

#[test]
fn missing_unit_is_an_error() {
    assert!(TaskSchedule::parse("15").is_err());
}

#[test]
fn missing_count_is_an_error() {
    assert!(TaskSchedule::parse("m").is_err());
}

#[test]
fn empty_string_is_an_error() {
    assert!(TaskSchedule::parse("").is_err());
}

#[test]
fn non_numeric_prefix_is_an_error() {
    assert!(TaskSchedule::parse("abc").is_err());
}

#[test]
fn overflowing_count_is_an_error() {
    assert!(TaskSchedule::parse("4294967296s").is_err());
}

#[test]
fn largest_count_parses() {
    let ts = TaskSchedule::parse("4294967295y").unwrap();
    assert!(matches!(ts.schedule, ScheduleInterval::Years(4294967295)));
    assert_eq!(ts.to_seconds(), 4294967295u64 * 31536000);
}
