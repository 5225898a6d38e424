use feiertage::computus_gregorian;
use feiertage::Date;

fn date(year: i32, month: u8, day: u8) -> Date {
    Date::new(year, month, day).unwrap()
}

#[test]
fn easter_2023() {
    assert_eq!(computus_gregorian(2023), Some(date(2023, 4, 9)));
}

#[test]
fn easter_2024() {
    assert_eq!(computus_gregorian(2024), Some(date(2024, 3, 31)));
}

#[test]
fn easter_2025() {
    assert_eq!(computus_gregorian(2025), Some(date(2025, 4, 20)));
}

#[test]
fn easter_2000() {
    assert_eq!(computus_gregorian(2000), Some(date(2000, 4, 23)));
}

#[test]
fn easter_1818_earliest_possible() {
    assert_eq!(computus_gregorian(1818), Some(date(1818, 3, 22)));
}

#[test]
fn easter_below_range_not_computable() {
    assert_eq!(computus_gregorian(1582), None);
}

#[test]
fn easter_above_range_not_computable() {
    assert_eq!(computus_gregorian(10000), None);
}

#[test]
fn easter_at_range_edges() {
    // 1583 and 9999 are the first and last computable years.
    assert_eq!(computus_gregorian(1583), Some(date(1583, 4, 10)));
    assert!(computus_gregorian(9999).is_some());
}

#[test]
fn easter_is_always_a_sunday() {
    for year in [1583, 1818, 1900, 1954, 2000, 2023, 2024, 2038, 2100, 9999] {
        let easter = computus_gregorian(year).unwrap();
        assert_eq!(easter.weekday(), 6, "easter of {year} must be a Sunday");
    }
}

#[test]
fn easter_stays_between_march_22_and_april_25() {
    for year in 1583..2200 {
        let easter = computus_gregorian(year).unwrap();
        assert_eq!(easter.year, year);
        let in_window = (easter.month == 3 && easter.day >= 22)
            || (easter.month == 4 && easter.day <= 25);
        assert!(in_window, "easter of {year} out of window");
    }
}
