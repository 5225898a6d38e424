//! The library's own date model, compared against the `time` crate on
//! the same inputs.

use feiertage::Date;

fn time_date(year: i32, month: u8, day: u8) -> Option<time::Date> {
    let month = time::Month::try_from(month).ok()?;
    time::Date::from_calendar_date(year, month, day).ok()
}

const SAMPLE_YEARS: [i32; 12] = [-9999, -100, 0, 1, 1583, 1818, 1900, 2000, 2023, 2024, 2100, 9999];

#[test]
fn validity_matches_the_time_crate() {
    for year in SAMPLE_YEARS {
        for month in 0..14u8 {
            for day in [0u8, 1, 28, 29, 30, 31, 32] {
                assert_eq!(
                    Date::new(year, month, day).is_some(),
                    time_date(year, month, day).is_some(),
                    "validity differs for {year}-{month}-{day}"
                );
            }
        }
    }
}

#[test]
fn weekday_matches_the_time_crate() {
    for year in SAMPLE_YEARS {
        for (month, day) in [(1, 1), (2, 28), (3, 1), (6, 15), (11, 23), (12, 31)] {
            let ours = Date::new(year, month, day).unwrap();
            let theirs = time_date(year, month, day).unwrap();
            assert_eq!(
                ours.weekday(),
                theirs.weekday().number_days_from_monday(),
                "weekday differs for {year}-{month}-{day}"
            );
        }
    }
}

#[test]
fn ordinal_matches_the_time_crate() {
    for year in SAMPLE_YEARS {
        for (month, day) in [(1, 1), (2, 28), (3, 1), (9, 20), (12, 31)] {
            let ours = Date::new(year, month, day).unwrap();
            let theirs = time_date(year, month, day).unwrap();
            assert_eq!(ours.ordinal(), theirs.ordinal());
        }
    }
}

#[test]
fn add_days_matches_the_time_crate() {
    for year in [-9999, 0, 1583, 2023, 2024, 9999] {
        for (month, day) in [(1, 1), (2, 28), (11, 23), (12, 31)] {
            for offset in [-40000, -366, -60, -2, -1, 0, 1, 39, 60, 365, 366, 40000] {
                let ours = Date::new(year, month, day).unwrap();
                let theirs = time_date(year, month, day).unwrap();
                let our_sum = ours.checked_add_days(offset);
                let their_sum = theirs.checked_add(time::Duration::days(offset as i64));
                match (our_sum, their_sum) {
                    (None, None) => {}
                    (Some(a), Some(b)) => {
                        assert_eq!(a.year, b.year());
                        assert_eq!(a.month, u8::from(b.month()));
                        assert_eq!(a.day, b.day());
                    }
                    _ => panic!("disagreement for {year}-{month}-{day} + {offset}"),
                }
            }
        }
    }
}
