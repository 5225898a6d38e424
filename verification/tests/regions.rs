use feiertage::nation_wide_holidays;
use feiertage::Date;
use feiertage::Holiday;
use feiertage::HolidayExt;
use feiertage::Region;

fn date(year: i32, month: u8, day: u8) -> Date {
    Date::new(year, month, day).unwrap()
}

fn all_regions() -> Vec<Region> {
    vec![
        Region::BadenWuerttemberg,
        Region::Bayern,
        Region::BayernAugsburg,
        Region::BayernCatholic,
        Region::BayernProtestant,
        Region::Berlin,
        Region::Brandenburg,
        Region::Bremen,
        Region::Hamburg,
        Region::Hessen,
        Region::MecklenburgVorpommern,
        Region::Niedersachsen,
        Region::NordrheinWestfalen,
        Region::RheinlandPfalz,
        Region::Saarland,
        Region::Sachsen,
        Region::SachsenCatholic,
        Region::SachenProtestant,
        Region::SachsenAnhalt,
        Region::SchleswigHolstein,
        Region::Thueringen,
        Region::ThueringenCatholic,
        Region::ThueringenProtestant,
    ]
}

#[test]
fn christmas_is_a_holiday_everywhere() {
    let christmas = date(2023, 12, 25);
    for region in all_regions() {
        assert!(region.is_holiday(christmas));
    }
}

#[test]
fn womens_day_is_regional() {
    let womens_day = date(2023, 3, 8);
    assert!(Region::Berlin.is_holiday(womens_day));
    assert!(Region::MecklenburgVorpommern.is_holiday(womens_day));
    assert!(!Region::Bayern.is_holiday(womens_day));
    assert!(!Region::Hessen.is_holiday(womens_day));
}

#[test]
fn augsburg_peace_festival_only_in_augsburg() {
    let festival = date(2023, 8, 8);
    assert!(Region::BayernAugsburg.is_holiday(festival));
    assert!(!Region::Bayern.is_holiday(festival));
    assert!(!Region::BayernCatholic.is_holiday(festival));
}

#[test]
fn corpus_christi_in_saxony_only_for_catholic_communities() {
    // Corpus Christi 2023 falls on 8 June.
    let corpus_christi = date(2023, 6, 8);
    assert!(Region::SachsenCatholic.is_holiday(corpus_christi));
    assert!(!Region::Sachsen.is_holiday(corpus_christi));
    assert!(!Region::SachenProtestant.is_holiday(corpus_christi));
    assert!(Region::ThueringenCatholic.is_holiday(corpus_christi));
    assert!(!Region::Thueringen.is_holiday(corpus_christi));
}

#[test]
fn protestant_bavaria_excludes_catholic_majority_holidays() {
    // Epiphany stays; Corpus Christi (8 June 2023), Assumption Day and
    // All Saints' Day are not observed in the protestant variant.
    assert!(Region::BayernProtestant.is_holiday(date(2023, 1, 6)));
    assert!(!Region::BayernProtestant.is_holiday(date(2023, 6, 8)));
    assert!(!Region::BayernProtestant.is_holiday(date(2023, 8, 15)));
    assert!(!Region::BayernProtestant.is_holiday(date(2023, 11, 1)));
    assert!(Region::BayernCatholic.is_holiday(date(2023, 6, 8)));
    assert!(Region::BayernCatholic.is_holiday(date(2023, 8, 15)));
    assert_eq!(Region::BayernProtestant.holidays().len(), 10);
}

#[test]
fn repentance_day_observed_in_saxony() {
    let repentance = date(2023, 11, 22);
    assert!(Region::Sachsen.is_holiday(repentance));
    assert!(Region::SachenProtestant.is_holiday(repentance));
    assert!(!Region::Bayern.is_holiday(repentance));
}

#[test]
fn assumption_day_depends_on_confession() {
    let assumption = date(2023, 8, 15);
    assert!(Region::Bayern.is_holiday(assumption));
    assert!(Region::Saarland.is_holiday(assumption));
    assert!(!Region::BadenWuerttemberg.is_holiday(assumption));
}

#[test]
fn ordinary_days_are_no_holidays() {
    assert!(!Region::Bayern.is_holiday(date(2023, 7, 4)));
    assert!(!Region::Berlin.is_holiday(date(2023, 12, 24)));
}

#[test]
fn uncomputable_holidays_are_skipped() {
    // In 1582 the Easter-relative holidays cannot be computed; fixed
    // holidays still count.
    assert!(Region::Bayern.is_holiday(date(1582, 12, 25)));
    assert!(!Region::Bayern.is_holiday(date(1582, 4, 10)));
}

#[test]
fn nationwide_list_has_the_nine_holidays() {
    let nationwide = nation_wide_holidays();
    assert_eq!(nationwide.len(), 9);
    assert!(nationwide.contains(&Holiday::Neujahr));
    assert!(nationwide.contains(&Holiday::Karfreitag));
    assert!(nationwide.contains(&Holiday::Ostermontag));
    assert!(nationwide.contains(&Holiday::TagDerArbeit));
    assert!(nationwide.contains(&Holiday::ChristiHimmelfahrt));
    assert!(nationwide.contains(&Holiday::Pfingstmontag));
    assert!(nationwide.contains(&Holiday::TagDerDeutschenEinheit));
    assert!(nationwide.contains(&Holiday::ErsterWeihnachtsfeiertag));
    assert!(nationwide.contains(&Holiday::ZweiterWeihnachtsfeiertag));
}

#[test]
fn every_region_lists_the_nationwide_holidays_without_duplicates() {
    let nationwide = nation_wide_holidays();
    for region in all_regions() {
        let holidays = region.holidays();
        for h in &nationwide {
            assert!(holidays.contains(h));
        }
        for (i, a) in holidays.iter().enumerate() {
            for (j, b) in holidays.iter().enumerate() {
                if i != j {
                    assert_ne!(a, b);
                }
            }
        }
    }
}

#[test]
fn region_lists_have_the_expected_sizes() {
    assert_eq!(Region::Bayern.holidays().len(), 13);
    assert_eq!(Region::BayernAugsburg.holidays().len(), 14);
    assert_eq!(Region::Berlin.holidays().len(), 10);
    assert_eq!(Region::SchleswigHolstein.holidays().len(), 10);
}

#[test]
fn a_date_can_be_asked_directly() {
    let d = date(2023, 12, 25);
    assert!(d.is_holiday(Region::Bayern));
    assert!(!date(2023, 8, 8).is_holiday(Region::Bayern));
}
