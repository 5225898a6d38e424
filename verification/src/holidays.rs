//! All recurring German holidays and their date-derivation rules.
//!
//! Every holiday's rule is a pure function of the year: a fixed
//! month/day, a fixed offset from Easter Sunday, or (for Repentance
//! Day) a weekday rule anchored at 23 November.

use vstd::prelude::*;
use vstd::arithmetic::div_mod::lemma_fundamental_div_mod;
use vstd::arithmetic::div_mod::lemma_fundamental_div_mod_converse_mod;
use vstd::arithmetic::div_mod::lemma_mod_bound;
use crate::computus::computable_year;
use crate::computus::computus_gregorian;
use crate::computus::easter_month;
use crate::computus::easter_day;
use crate::computus::lemma_easter_md;
use crate::date::Date;
use crate::date::year_in_range;
use crate::date::valid_date;
use crate::date::ordinal_of;
use crate::date::day_number_of;
use crate::date::weekday_of;
use crate::date::month_of_ordinal;
use crate::date::day_of_ordinal;
use crate::date::days_in_year;

verus! {

/// All recurring holidays in Germany, public and regional ones alike.
///
/// For the holidays a region actually observes use
/// [`crate::Region`], since public holidays differ from region to
/// region.
#[derive(Clone, Copy, Debug, PartialEq, Eq, Structural)]
pub enum Holiday {
    /// New Year's Day, 1 January.
    Neujahr,
    /// Epiphany, 6 January.
    HeiligeDreiKoenige,
    /// Women's Day, 8 March.
    Frauentag,
    /// Good Friday, two days before Easter Sunday.
    Karfreitag,
    /// Easter Monday, the day after Easter Sunday.
    Ostermontag,
    /// Labour Day, 1 May.
    TagDerArbeit,
    /// Liberation Day, 8 May.
    TagDerBefreiung,
    /// Ascension Day, 39 days after Easter Sunday.
    ChristiHimmelfahrt,
    /// Whit Sunday, 49 days after Easter Sunday.
    Pfingstsonntag,
    /// Whit Monday, 50 days after Easter Sunday.
    Pfingstmontag,
    /// Corpus Christi, 60 days after Easter Sunday.
    Fronleichnam,
    /// Augsburg Peace Festival, 8 August.
    AugsburgerFriedensfest,
    /// Assumption Day, 15 August.
    MariaeHimmelfahrt,
    /// World Children's Day, 20 September.
    Weltkindertag,
    /// German Unity Day, 3 October.
    TagDerDeutschenEinheit,
    /// Reformation Day, 31 October.
    Reformationstag,
    /// All Saints' Day, 1 November.
    Allerheiligen,
    /// Repentance Day, the Wednesday before 23 November.
    BussUndBettag,
    /// Christmas Day, 25 December.
    ErsterWeihnachtsfeiertag,
    /// Boxing Day, 26 December.
    ZweiterWeihnachtsfeiertag,
}

/// Month and day of a holiday with a fixed calendar date: defined for
/// every year a `Date` can hold.
pub open spec fn fixed_md(y: int, m: int, d: int) -> Option<(int, int)> {
    if year_in_range(y) {
        Some((m, d))
    } else {
        None
    }
}

/// Month and day of the date `off` days after Easter Sunday of year
/// `y`: defined exactly for the computable years.
pub open spec fn easter_relative_md(y: int, off: int) -> Option<(int, int)> {
    if computable_year(y) {
        let n = ordinal_of(y, easter_month(y), easter_day(y)) + off;
        Some((month_of_ordinal(y, n), day_of_ordinal(y, n)))
    } else {
        None
    }
}

/// Month and day of Repentance Day of year `y`: the Wednesday before
/// 23 November, counted back from that date's weekday.
pub open spec fn repentance_md(y: int) -> Option<(int, int)> {
    if year_in_range(y) {
        let w = weekday_of(y, 11, 23);
        let shift = if w < 3 { w + 5 } else { w - 2 };
        Some((11, 23 - shift))
    } else {
        None
    }
}

/// Month and day of holiday `h` in year `y`, or `None` when the date
/// cannot be computed for that year.
pub open spec fn holiday_md(h: Holiday, y: int) -> Option<(int, int)> {
    match h {
        Holiday::Neujahr => fixed_md(y, 1, 1),
        Holiday::HeiligeDreiKoenige => fixed_md(y, 1, 6),
        Holiday::Frauentag => fixed_md(y, 3, 8),
        Holiday::Karfreitag => easter_relative_md(y, -2),
        Holiday::Ostermontag => easter_relative_md(y, 1),
        Holiday::TagDerArbeit => fixed_md(y, 5, 1),
        Holiday::TagDerBefreiung => fixed_md(y, 5, 8),
        Holiday::ChristiHimmelfahrt => easter_relative_md(y, 39),
        Holiday::Pfingstsonntag => easter_relative_md(y, 49),
        Holiday::Pfingstmontag => easter_relative_md(y, 50),
        Holiday::Fronleichnam => easter_relative_md(y, 60),
        Holiday::AugsburgerFriedensfest => fixed_md(y, 8, 8),
        Holiday::MariaeHimmelfahrt => fixed_md(y, 8, 15),
        Holiday::Weltkindertag => fixed_md(y, 9, 20),
        Holiday::TagDerDeutschenEinheit => fixed_md(y, 10, 3),
        Holiday::Reformationstag => fixed_md(y, 10, 31),
        Holiday::Allerheiligen => fixed_md(y, 11, 1),
        Holiday::BussUndBettag => repentance_md(y),
        Holiday::ErsterWeihnachtsfeiertag => fixed_md(y, 12, 25),
        Holiday::ZweiterWeihnachtsfeiertag => fixed_md(y, 12, 26),
    }
}

/// The result `r` is exactly what deriving holiday `h`'s date for
/// `year` must return: a valid date of that year on the month/day that
/// `holiday_md` gives, or `None` exactly when the rule yields none.
pub open spec fn date_result_matches(h: Holiday, year: i32, r: Option<Date>) -> bool {
    match r {
        Some(d) => d.valid() && d.year == year
            && holiday_md(h, year as int) == Some((d.month as int, d.day as int)),
        None => holiday_md(h, year as int) is None,
    }
}

impl Holiday {
    /// The date of this holiday in the given year, or `None` when it
    /// cannot be computed for that year.
    pub fn date(&self, year: i32) -> (r: Option<Date>)
        ensures
            date_result_matches(*self, year, r),
    {
        match self {
            Holiday::Neujahr => Date::new(year, 1, 1),
            Holiday::HeiligeDreiKoenige => Date::new(year, 1, 6),
            Holiday::Frauentag => Date::new(year, 3, 8),
            Holiday::Karfreitag => relative_to_easter_sunday(year, -2),
            Holiday::Ostermontag => relative_to_easter_sunday(year, 1),
            Holiday::TagDerArbeit => Date::new(year, 5, 1),
            Holiday::TagDerBefreiung => Date::new(year, 5, 8),
            Holiday::ChristiHimmelfahrt => relative_to_easter_sunday(year, 39),
            Holiday::Pfingstsonntag => relative_to_easter_sunday(year, 49),
            Holiday::Pfingstmontag => relative_to_easter_sunday(year, 50),
            Holiday::Fronleichnam => relative_to_easter_sunday(year, 60),
            Holiday::AugsburgerFriedensfest => Date::new(year, 8, 8),
            Holiday::MariaeHimmelfahrt => Date::new(year, 8, 15),
            Holiday::Weltkindertag => Date::new(year, 9, 20),
            Holiday::TagDerDeutschenEinheit => Date::new(year, 10, 3),
            Holiday::Reformationstag => Date::new(year, 10, 31),
            Holiday::Allerheiligen => Date::new(year, 11, 1),
            Holiday::BussUndBettag => bus_und_bettag(year),
            Holiday::ErsterWeihnachtsfeiertag => Date::new(year, 12, 25),
            Holiday::ZweiterWeihnachtsfeiertag => Date::new(year, 12, 26),
        }
    }
}

/// The date `days_offset` days after Easter Sunday of the given year,
/// or `None` when Easter cannot be computed for it.
fn relative_to_easter_sunday(year: i32, days_offset: i32) -> (r: Option<Date>)
    requires
        -80 <= days_offset <= 249,
    ensures
        r matches Some(d) ==> d.valid() && d.year == year
            && easter_relative_md(year as int, days_offset as int)
                == Some((d.month as int, d.day as int)),
        r is None <==> easter_relative_md(year as int, days_offset as int) is None,
{
    match computus_gregorian(year) {
        None => None,
        Some(easter_sunday) => {
            proof {
                lemma_easter_md(year as int);
            }
            let n: i32 = easter_sunday.ordinal() as i32 + days_offset;
            Some(Date::from_ordinal(year, n))
        },
    }
}

/// Repentance Day of the given year: the Wednesday before 23 November.
fn bus_und_bettag(year: i32) -> (r: Option<Date>)
    ensures
        r matches Some(d) ==> d.valid() && d.year == year
            && repentance_md(year as int) == Some((d.month as int, d.day as int)),
        r is None <==> repentance_md(year as int) is None,
{
    let reference_date = match Date::new(year, 11, 23) {
        None => {
            return None;
        },
        Some(rd) => rd,
    };
    let weekday_ordinal = reference_date.weekday();
    let shift: u8 = if weekday_ordinal < 3 {
        weekday_ordinal + 5
    } else {
        weekday_ordinal - 2
    };
    Date::new(year, 11, 23 - shift)
}

/// Law: deriving a holiday's date is deterministic; any two results
/// that the derivation admits for the same holiday and year are equal.
pub proof fn lemma_date_deterministic(h: Holiday, year: i32, r1: Option<Date>, r2: Option<Date>)
    requires
        date_result_matches(h, year, r1),
        date_result_matches(h, year, r2),
    ensures
        r1 == r2,
{
}

/// Law: Repentance Day always lands on a Wednesday between 16 and 22
/// November, whenever the year can be held at all.
pub proof fn lemma_repentance_is_wednesday(y: int)
    requires
        year_in_range(y),
    ensures
        repentance_md(y) matches Some(md)
            && md.0 == 11 && 16 <= md.1 <= 22
            && weekday_of(y, md.0, md.1) == 2,
{
    let dn = day_number_of(y, 11, 23);
    let w = weekday_of(y, 11, 23);
    let shift = if w < 3 { w + 5 } else { w - 2 };
    lemma_fundamental_div_mod(dn, 7);
    lemma_mod_bound(dn, 7);
    let q = dn / 7;
    assert(day_number_of(y, 11, 23 - shift) == dn - shift);
    if w < 3 {
        lemma_fundamental_div_mod_converse_mod(dn - shift, 7, q - 1, 2);
    } else {
        lemma_fundamental_div_mod_converse_mod(dn - shift, 7, q, 2);
    }
}

/// Law: whenever Easter Sunday is computable, Good Friday lies exactly
/// 2 days before it and Easter Monday exactly 1 day after it.
pub proof fn lemma_good_friday_easter_monday(y: int)
    requires
        computable_year(y),
    ensures
        holiday_md(Holiday::Karfreitag, y) matches Some(md)
            && day_number_of(y, md.0, md.1)
                == day_number_of(y, easter_month(y), easter_day(y)) - 2,
        holiday_md(Holiday::Ostermontag, y) matches Some(md)
            && day_number_of(y, md.0, md.1)
                == day_number_of(y, easter_month(y), easter_day(y)) + 1,
{
    lemma_easter_md(y);
}

} // verus!
