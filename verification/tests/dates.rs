use feiertage::Date;
use feiertage::MIN_YEAR;
use feiertage::MAX_YEAR;

fn date(year: i32, month: u8, day: u8) -> Date {
    Date::new(year, month, day).unwrap()
}

#[test]
fn new_accepts_ordinary_dates() {
    let d = date(2023, 12, 25);
    assert_eq!(d.year, 2023);
    assert_eq!(d.month, 12);
    assert_eq!(d.day, 25);
}

#[test]
fn new_rejects_invalid_dates() {
    assert_eq!(Date::new(2023, 2, 30), None);
    assert_eq!(Date::new(2023, 2, 29), None);
    assert_eq!(Date::new(2023, 0, 1), None);
    assert_eq!(Date::new(2023, 13, 1), None);
    assert_eq!(Date::new(2023, 4, 31), None);
    assert_eq!(Date::new(2023, 1, 0), None);
    assert_eq!(Date::new(10000, 1, 1), None);
    assert_eq!(Date::new(-10000, 1, 1), None);
}

#[test]
fn new_knows_leap_years() {
    assert!(Date::new(2024, 2, 29).is_some());
    assert!(Date::new(2000, 2, 29).is_some());
    assert_eq!(Date::new(1900, 2, 29), None);
    assert_eq!(Date::new(2100, 2, 29), None);
}

#[test]
fn weekday_of_known_dates() {
    // Monday = 0 .. Sunday = 6.
    assert_eq!(date(2023, 12, 25).weekday(), 0);
    assert_eq!(date(2000, 1, 1).weekday(), 5);
    assert_eq!(date(2023, 11, 23).weekday(), 3);
    assert_eq!(date(2024, 11, 23).weekday(), 5);
    assert_eq!(date(1, 1, 1).weekday(), 0);
}

#[test]
fn ordinal_counts_from_one() {
    assert_eq!(date(2023, 1, 1).ordinal(), 1);
    assert_eq!(date(2023, 3, 1).ordinal(), 60);
    assert_eq!(date(2024, 3, 1).ordinal(), 61);
    assert_eq!(date(2023, 12, 31).ordinal(), 365);
    assert_eq!(date(2024, 12, 31).ordinal(), 366);
}

#[test]
fn add_days_within_a_month() {
    assert_eq!(date(2023, 11, 23).checked_add_days(-1), Some(date(2023, 11, 22)));
    assert_eq!(date(2023, 11, 23).checked_add_days(0), Some(date(2023, 11, 23)));
}

#[test]
fn add_days_across_month_and_year_borders() {
    assert_eq!(date(2023, 12, 31).checked_add_days(1), Some(date(2024, 1, 1)));
    assert_eq!(date(2024, 1, 1).checked_add_days(-1), Some(date(2023, 12, 31)));
    assert_eq!(date(2024, 2, 28).checked_add_days(1), Some(date(2024, 2, 29)));
    assert_eq!(date(2023, 2, 28).checked_add_days(1), Some(date(2023, 3, 1)));
    assert_eq!(date(2023, 1, 1).checked_add_days(365), Some(date(2024, 1, 1)));
    assert_eq!(date(2023, 1, 1).checked_add_days(731), Some(date(2025, 1, 1)));
    assert_eq!(date(2025, 1, 1).checked_add_days(-731), Some(date(2023, 1, 1)));
}

#[test]
fn add_days_refuses_to_leave_the_supported_range() {
    assert_eq!(date(MAX_YEAR, 12, 31).checked_add_days(1), None);
    assert_eq!(date(MIN_YEAR, 1, 1).checked_add_days(-1), None);
    assert!(date(MAX_YEAR, 12, 30).checked_add_days(1).is_some());
}
