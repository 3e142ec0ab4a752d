use chrono::{DateTime, TimeZone};
use chrono_tz::Tz;
use photoframe::awake::{
    floor_div_mod, weekday_from_days, AwakeScheduleConfig, AwakeScheduleRules, AwakeTimeRange, RangeError, RangeList,
    Timestamp, Weekday,
};

fn range(start: &str, end: &str) -> AwakeTimeRange {
    AwakeTimeRange::parse(start, end).expect("valid range")
}

fn schedule(zone: &str, rules: AwakeScheduleRules) -> AwakeScheduleConfig {
    let mut schedule = AwakeScheduleConfig { timezone: zone.to_string(), schedule: rules };
    schedule.validate().expect("valid schedule");
    schedule
}

fn stamp(dt: DateTime<Tz>) -> Timestamp {
    Timestamp { secs: dt.timestamp(), nanos: dt.timestamp_subsec_nanos() }
}

fn tz(zone: &str) -> Tz {
    zone.parse().expect("known zone")
}

fn daily_rules() -> AwakeScheduleRules {
    let mut rules = AwakeScheduleRules::new();
    rules.daily = vec![range("07:00", "09:30")];
    rules
}

fn overrides_rules() -> AwakeScheduleRules {
    let mut rules = AwakeScheduleRules::new();
    rules.daily = vec![range("07:00", "21:00")];
    rules.weekdays = Some(vec![range("06:00", "22:00")]);
    rules.friday = Some(vec![]);
    rules.saturday = Some(vec![range("09:00", "12:00")]);
    rules
}

fn sunday_rules(start: &str, end: &str) -> AwakeScheduleRules {
    let mut rules = AwakeScheduleRules::new();
    rules.sunday = Some(vec![range(start, end)]);
    rules
}

fn check_daily_interval() {
    let schedule = schedule("UTC", daily_rules());
    let zone = tz("UTC");
    let before = stamp(zone.with_ymd_and_hms(2024, 1, 1, 6, 0, 0).single().unwrap());
    let (start, awake) = schedule.next_transition_after(before).unwrap().expect("transition");
    assert!(awake);
    assert_eq!(start, stamp(zone.with_ymd_and_hms(2024, 1, 1, 7, 0, 0).single().unwrap()));
    let during = stamp(zone.with_ymd_and_hms(2024, 1, 1, 8, 0, 0).single().unwrap());
    assert_eq!(schedule.is_awake_at(during), Ok(true));
    let (end, awake) = schedule.next_transition_after(during).unwrap().expect("end transition");
    assert!(!awake);
    assert_eq!(end, stamp(zone.with_ymd_and_hms(2024, 1, 1, 9, 30, 0).single().unwrap()));
}

fn check_day_specific_overrides() {
    let schedule = schedule("America/New_York", overrides_rules());
    let zone = tz("America/New_York");
    let thursday = stamp(zone.with_ymd_and_hms(2024, 7, 18, 6, 30, 0).single().unwrap());
    assert_eq!(schedule.is_awake_at(thursday), Ok(true));
    let friday = stamp(zone.with_ymd_and_hms(2024, 7, 19, 12, 0, 0).single().unwrap());
    assert_eq!(schedule.is_awake_at(friday), Ok(false));
    let saturday = stamp(zone.with_ymd_and_hms(2024, 7, 20, 10, 30, 0).single().unwrap());
    assert_eq!(schedule.is_awake_at(saturday), Ok(true));
}

fn check_dst_gap() {
    let schedule = schedule("America/New_York", sunday_rules("02:00", "03:30"));
    let zone = tz("America/New_York");
    let before = stamp(zone.with_ymd_and_hms(2024, 3, 10, 1, 0, 0).single().unwrap());
    let (start, awake) = schedule.next_transition_after(before).unwrap().expect("start transition");
    assert!(awake);
    assert_eq!(start, stamp(zone.with_ymd_and_hms(2024, 3, 10, 3, 0, 0).single().unwrap()));
    let (end, awake) = schedule.next_transition_after(start).unwrap().expect("end transition");
    assert!(!awake);
    assert_eq!(end, stamp(zone.with_ymd_and_hms(2024, 3, 10, 3, 30, 0).single().unwrap()));
}

fn check_dst_repeat() {
    let schedule = schedule("America/New_York", sunday_rules("01:00", "02:00"));
    let zone = tz("America/New_York");
    let base = stamp(zone.with_ymd_and_hms(2024, 11, 3, 0, 30, 0).single().unwrap());
    let (start, awake) = schedule.next_transition_after(base).unwrap().expect("start");
    assert!(awake);
    assert_eq!(start, stamp(zone.with_ymd_and_hms(2024, 11, 3, 1, 0, 0).earliest().unwrap()));
    let (end, awake) = schedule.next_transition_after(start).unwrap().expect("end");
    assert!(!awake);
    assert_eq!(end, stamp(zone.with_ymd_and_hms(2024, 11, 3, 2, 0, 0).latest().unwrap()));
}

#[test]
fn lib_next_transition_from_daily_interval() {
    check_daily_interval();
}

#[test]
fn lib_day_specific_overrides_weekdays() {
    check_day_specific_overrides();
}

#[test]
fn lib_dst_gap_shifts_to_next_valid_time() {
    check_dst_gap();
}

#[test]
fn lib_dst_repeat_uses_latest_end() {
    check_dst_repeat();
}

#[test]
fn config_next_transition_from_daily_interval() {
    check_daily_interval();
}

#[test]
fn config_day_specific_overrides_weekdays() {
    check_day_specific_overrides();
}

#[test]
fn config_dst_gap_shifts_to_next_valid_time() {
    check_dst_gap();
}

#[test]
fn config_dst_repeat_uses_latest_end() {
    check_dst_repeat();
}

#[test]
fn time_literals_accept_seconds_and_white_space() {
    let r = range(" 07:00:30 ", "23:59");
    assert_eq!(r.start().secs, 7 * 3600 + 30);
    assert_eq!(r.end().secs, 23 * 3600 + 59 * 60);
    assert_eq!(AwakeTimeRange::parse("seven", "08:00"), Err(RangeError::InvalidStart));
    assert_eq!(AwakeTimeRange::parse("07:00", "25:00"), Err(RangeError::InvalidEnd));
    assert_eq!(AwakeTimeRange::parse("09:00", "08:00"), Err(RangeError::StartNotBeforeEnd));
    assert_eq!(AwakeTimeRange::parse("09:00", "09:00"), Err(RangeError::StartNotBeforeEnd));
}

#[test]
fn validate_sorts_ranges_and_rejects_overlaps() {
    let mut rules = AwakeScheduleRules::new();
    rules.daily = vec![range("18:00", "22:00"), range("06:00", "08:00")];
    assert_eq!(rules.validate(), Ok(()));
    assert_eq!(rules.daily[0], range("06:00", "08:00"));
    let mut bad = AwakeScheduleRules::new();
    bad.tuesday = Some(vec![range("06:00", "09:00"), range("08:00", "10:00")]);
    assert_eq!(bad.validate(), Err(RangeList::Tuesday));
}

#[test]
fn weekdays_follow_the_calendar() {
    assert_eq!(weekday_from_days(0), Weekday::Thu);
    assert_eq!(weekday_from_days(-1), Weekday::Wed);
    assert_eq!(weekday_from_days(3), Weekday::Sun);
    assert_eq!(weekday_from_days(4), Weekday::Mon);
    assert_eq!(floor_div_mod(-1, 86400), (-1, 86399));
    assert_eq!(floor_div_mod(86400, 86400), (1, 0));
}

#[test]
fn unknown_zone_cannot_be_resolved() {
    let schedule = AwakeScheduleConfig { timezone: "Mars/Olympus".to_string(), schedule: daily_rules() };
    assert!(schedule.is_awake_at(Timestamp { secs: 0, nanos: 0 }).is_err());
}

#[test]
fn empty_schedule_never_wakes() {
    let schedule = schedule("UTC", AwakeScheduleRules::new());
    let now = Timestamp { secs: 1_700_000_000, nanos: 0 };
    assert_eq!(schedule.is_awake_at(now), Ok(false));
    assert_eq!(schedule.next_transition_after(now), Ok(None));
}

#[test]
fn validation_stops_at_the_first_overlapping_list() {
    let mut config = AwakeScheduleConfig { timezone: "UTC".to_string(), schedule: AwakeScheduleRules::new() };
    config.schedule.weekend = Some(vec![range("10:00", "12:00"), range("07:00", "09:00")]);
    config.schedule.monday = Some(vec![range("06:00", "09:00"), range("08:00", "10:00")]);
    config.schedule.friday = Some(vec![range("20:00", "21:00"), range("05:00", "06:00")]);
    assert_eq!(config.validate(), Err(RangeList::Monday));
    let weekend = config.schedule.weekend.clone().unwrap();
    assert_eq!(weekend[0], range("07:00", "09:00"));
    let friday = config.schedule.friday.clone().unwrap();
    assert_eq!(friday[0], range("20:00", "21:00"));
}

#[test]
fn instants_at_the_end_of_the_calendar_are_unresolvable() {
    let mut rules = AwakeScheduleRules::new();
    rules.daily = vec![range("07:00", "22:00")];
    let config = schedule("Asia/Tokyo", rules);
    let last = chrono::DateTime::<chrono::Utc>::MAX_UTC;
    let at = Timestamp { secs: last.timestamp() - 60, nanos: 0 };
    assert!(config.is_awake_at(at).is_err());
    assert!(config.next_transition_after(at).is_err());
}
