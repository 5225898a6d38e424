//! German regions and the holidays each one observes.
//!
//! Every region's effective holiday list is its own regional list with
//! the fixed nationwide list appended. Confessional variants (catholic
//! or protestant majorities within one state) differ only in a few
//! minority-observance holidays.

use vstd::prelude::*;
use crate::date::Date;
use crate::holidays::Holiday;
use crate::holidays::holiday_md;

verus! {

/// The regions (mostly German states) for which holidays can be
/// calculated, with variants for regions where religious or minor
/// community-specific holidays differ.
#[derive(Clone, Copy, Debug, PartialEq, Eq, Structural)]
pub enum Region {
    /// Baden-Wuerttemberg.
    BadenWuerttemberg,
    /// Bavaria.
    ///
    /// * The Augsburg Peace Festival only applies to Augsburg; it is
    ///   excluded here but included in [`Region::BayernAugsburg`].
    /// * Assumption Day only applies to communities with a catholic
    ///   majority; since that is the case in most communities, it is
    ///   included by default and excluded in
    ///   [`Region::BayernProtestant`].
    Bayern,
    /// The Augsburg region of Bavaria, where the Augsburg Peace
    /// Festival applies.
    BayernAugsburg,
    /// Bavarian communities with a predominantly catholic population.
    BayernCatholic,
    /// Bavarian communities with a predominantly protestant population.
    ///
    /// The catholic-majority holidays Corpus Christi and Assumption
    /// Day are excluded here; All Saints' Day is not observed in this
    /// variant either.
    BayernProtestant,
    /// Berlin.
    Berlin,
    /// Brandenburg.
    Brandenburg,
    /// Bremen.
    Bremen,
    /// Hamburg.
    Hamburg,
    /// Hesse.
    Hessen,
    /// Mecklenburg-Western Pomerania.
    MecklenburgVorpommern,
    /// Lower Saxony.
    Niedersachsen,
    /// North Rhine-Westphalia.
    NordrheinWestfalen,
    /// Rhineland-Palatinate.
    RheinlandPfalz,
    /// Saarland.
    Saarland,
    /// Saxony.
    ///
    /// Corpus Christi applies only to a minority of communities and is
    /// excluded by default; use [`Region::SachsenCatholic`] to include
    /// it.
    Sachsen,
    /// Catholic communities within Saxony.
    SachsenCatholic,
    /// Protestant communities within Saxony.
    SachenProtestant,
    /// Saxony-Anhalt.
    SachsenAnhalt,
    /// Schleswig-Holstein.
    SchleswigHolstein,
    /// Thuringia.
    ///
    /// Corpus Christi applies only to a minority of communities and is
    /// excluded by default; use [`Region::ThueringenCatholic`] to
    /// include it.
    Thueringen,
    /// Catholic communities within Thuringia.
    ThueringenCatholic,
    /// Protestant communities within Thuringia.
    ThueringenProtestant,
}

/// The holidays observed nationwide, in every region.
pub open spec fn nationwide_seq() -> Seq<Holiday> {
    seq![
        Holiday::Neujahr,
        Holiday::Karfreitag,
        Holiday::Ostermontag,
        Holiday::TagDerArbeit,
        Holiday::ChristiHimmelfahrt,
        Holiday::Pfingstmontag,
        Holiday::TagDerDeutschenEinheit,
        Holiday::ErsterWeihnachtsfeiertag,
        Holiday::ZweiterWeihnachtsfeiertag,
    ]
}

/// The region-specific holidays of `r`, without the nationwide ones.
pub open spec fn regional_seq(r: Region) -> Seq<Holiday> {
    match r {
        Region::BadenWuerttemberg => seq![
            Holiday::HeiligeDreiKoenige,
            Holiday::Fronleichnam,
            Holiday::Allerheiligen,
        ],
        Region::Bayern => seq![
            Holiday::HeiligeDreiKoenige,
            Holiday::Fronleichnam,
            Holiday::MariaeHimmelfahrt,
            Holiday::Allerheiligen,
        ],
        Region::BayernAugsburg => seq![
            Holiday::HeiligeDreiKoenige,
            Holiday::Fronleichnam,
            Holiday::AugsburgerFriedensfest,
            Holiday::MariaeHimmelfahrt,
            Holiday::Allerheiligen,
        ],
        Region::BayernCatholic => seq![
            Holiday::HeiligeDreiKoenige,
            Holiday::Fronleichnam,
            Holiday::MariaeHimmelfahrt,
            Holiday::Allerheiligen,
        ],
        Region::BayernProtestant => seq![Holiday::HeiligeDreiKoenige],
        Region::Berlin => seq![Holiday::Frauentag],
        Region::Brandenburg => seq![Holiday::Reformationstag],
        Region::Bremen => seq![Holiday::Reformationstag],
        Region::Hamburg => seq![Holiday::Reformationstag],
        Region::Hessen => seq![Holiday::Fronleichnam],
        Region::MecklenburgVorpommern => seq![
            Holiday::Frauentag,
            Holiday::Reformationstag,
        ],
        Region::Niedersachsen => seq![Holiday::Reformationstag],
        Region::NordrheinWestfalen => seq![
            Holiday::Fronleichnam,
            Holiday::Allerheiligen,
        ],
        Region::RheinlandPfalz => seq![
            Holiday::Fronleichnam,
            Holiday::Allerheiligen,
        ],
        Region::Saarland => seq![
            Holiday::Fronleichnam,
            Holiday::MariaeHimmelfahrt,
            Holiday::Allerheiligen,
        ],
        Region::Sachsen => seq![
            Holiday::Reformationstag,
            Holiday::BussUndBettag,
        ],
        Region::SachsenCatholic => seq![
            Holiday::Reformationstag,
            Holiday::Fronleichnam,
            Holiday::BussUndBettag,
        ],
        Region::SachenProtestant => seq![
            Holiday::Reformationstag,
            Holiday::BussUndBettag,
        ],
        Region::SachsenAnhalt => seq![
            Holiday::HeiligeDreiKoenige,
            Holiday::Reformationstag,
        ],
        Region::SchleswigHolstein => seq![Holiday::Reformationstag],
        Region::Thueringen => seq![
            Holiday::Weltkindertag,
            Holiday::Reformationstag,
        ],
        Region::ThueringenCatholic => seq![
            Holiday::Fronleichnam,
            Holiday::Reformationstag,
        ],
        Region::ThueringenProtestant => seq![Holiday::Reformationstag],
    }
}

/// The full holiday list of region `r`: its regional list with the
/// nationwide list appended.
pub open spec fn holidays_seq(r: Region) -> Seq<Holiday> {
    regional_seq(r) + nationwide_seq()
}

/// The fixed list of holidays that are observed nationwide.
pub fn nation_wide_holidays() -> (v: Vec<Holiday>)
    ensures
        v@ == nationwide_seq(),
{
    let mut v: Vec<Holiday> = Vec::new();
    v.push(Holiday::Neujahr);
    v.push(Holiday::Karfreitag);
    v.push(Holiday::Ostermontag);
    v.push(Holiday::TagDerArbeit);
    v.push(Holiday::ChristiHimmelfahrt);
    v.push(Holiday::Pfingstmontag);
    v.push(Holiday::TagDerDeutschenEinheit);
    v.push(Holiday::ErsterWeihnachtsfeiertag);
    v.push(Holiday::ZweiterWeihnachtsfeiertag);
    proof {
        assert(v@ =~= nationwide_seq());
    }
    v
}

impl Region {
    /// The date is a holiday somewhere in this region's list: some
    /// listed holiday's date for the date's year is exactly this date.
    pub open spec fn spec_is_holiday(self, date: Date) -> bool {
        exists |i: int|
            0 <= i < holidays_seq(self).len()
                && holiday_md(#[trigger] holidays_seq(self)[i], date.year as int)
                    == Some((date.month as int, date.day as int))
    }

    /// Checks whether the given date is a holiday in this region.
    ///
    /// A holiday whose date cannot be computed for the date's year is
    /// treated as not occurring in that year.
    pub fn is_holiday(&self, date: Date) -> (r: bool)
        ensures
            r == self.spec_is_holiday(date),
    {
        let holidays = self.holidays();
        let year = date.year;
        let mut idx: usize = 0;
        while idx < holidays.len()
            invariant
                holidays@ == holidays_seq(*self),
                year == date.year,
                0 <= idx <= holidays@.len(),
                forall |j: int| 0 <= j < idx
                    ==> holiday_md(#[trigger] holidays@[j], date.year as int)
                        != Some((date.month as int, date.day as int)),
            decreases holidays@.len() - idx,
        {
            match holidays[idx].date(year) {
                Some(holiday_date) => {
                    if date == holiday_date {
                        return true;
                    }
                },
                None => {},
            }
            idx = idx + 1;
        }
        false
    }

    /// The list of holidays observed in this region: the
    /// region-specific ones followed by the nationwide ones.
    pub fn holidays(&self) -> (v: Vec<Holiday>)
        ensures
            v@ == holidays_seq(*self),
    {
        let mut v: Vec<Holiday> = match self {
            Region::BadenWuerttemberg => vec![
                Holiday::HeiligeDreiKoenige,
                Holiday::Fronleichnam,
                Holiday::Allerheiligen,
            ],
            Region::Bayern => vec![
                Holiday::HeiligeDreiKoenige,
                Holiday::Fronleichnam,
                Holiday::MariaeHimmelfahrt,
                Holiday::Allerheiligen,
            ],
            Region::BayernAugsburg => vec![
                Holiday::HeiligeDreiKoenige,
                Holiday::Fronleichnam,
                Holiday::AugsburgerFriedensfest,
                Holiday::MariaeHimmelfahrt,
                Holiday::Allerheiligen,
            ],
            Region::BayernCatholic => vec![
                Holiday::HeiligeDreiKoenige,
                Holiday::Fronleichnam,
                Holiday::MariaeHimmelfahrt,
                Holiday::Allerheiligen,
            ],
            Region::BayernProtestant => vec![Holiday::HeiligeDreiKoenige],
            Region::Berlin => vec![Holiday::Frauentag],
            Region::Brandenburg => vec![Holiday::Reformationstag],
            Region::Bremen => vec![Holiday::Reformationstag],
            Region::Hamburg => vec![Holiday::Reformationstag],
            Region::Hessen => vec![Holiday::Fronleichnam],
            Region::MecklenburgVorpommern => vec![
                Holiday::Frauentag,
                Holiday::Reformationstag,
            ],
            Region::Niedersachsen => vec![Holiday::Reformationstag],
            Region::NordrheinWestfalen => vec![
                Holiday::Fronleichnam,
                Holiday::Allerheiligen,
            ],
            Region::RheinlandPfalz => vec![
                Holiday::Fronleichnam,
                Holiday::Allerheiligen,
            ],
            Region::Saarland => vec![
                Holiday::Fronleichnam,
                Holiday::MariaeHimmelfahrt,
                Holiday::Allerheiligen,
            ],
            Region::Sachsen => vec![
                Holiday::Reformationstag,
                Holiday::BussUndBettag,
            ],
            Region::SachsenCatholic => vec![
                Holiday::Reformationstag,
                Holiday::Fronleichnam,
                Holiday::BussUndBettag,
            ],
            Region::SachenProtestant => vec![
                Holiday::Reformationstag,
                Holiday::BussUndBettag,
            ],
            Region::SachsenAnhalt => vec![
                Holiday::HeiligeDreiKoenige,
                Holiday::Reformationstag,
            ],
            Region::SchleswigHolstein => vec![Holiday::Reformationstag],
            Region::Thueringen => vec![
                Holiday::Weltkindertag,
                Holiday::Reformationstag,
            ],
            Region::ThueringenCatholic => vec![
                Holiday::Fronleichnam,
                Holiday::Reformationstag,
            ],
            Region::ThueringenProtestant => vec![Holiday::Reformationstag],
        };
        proof {
            assert(v@ =~= regional_seq(*self));
        }
        v.push(Holiday::Neujahr);
        v.push(Holiday::Karfreitag);
        v.push(Holiday::Ostermontag);
        v.push(Holiday::TagDerArbeit);
        v.push(Holiday::ChristiHimmelfahrt);
        v.push(Holiday::Pfingstmontag);
        v.push(Holiday::TagDerDeutschenEinheit);
        v.push(Holiday::ErsterWeihnachtsfeiertag);
        v.push(Holiday::ZweiterWeihnachtsfeiertag);
        proof {
            assert(v@ =~= holidays_seq(*self));
        }
        v
    }
}

/// Law: every region's resolved holiday list contains each of the 9
/// nationwide holidays, and holds no duplicates.
pub proof fn lemma_region_list_sound(r: Region)
    ensures
        forall |h: Holiday| nationwide_seq().contains(h) ==> holidays_seq(r).contains(h),
        holidays_seq(r).no_duplicates(),
{
    assert forall |h: Holiday| nationwide_seq().contains(h)
        implies holidays_seq(r).contains(h) by {
        let i = choose |i: int| 0 <= i < nationwide_seq().len() && nationwide_seq()[i] == h;
        assert(holidays_seq(r)[regional_seq(r).len() + i] == h);
    }
    assert(holidays_seq(r).no_duplicates());
}

/// Law: a date on which a nationwide holiday falls is a holiday in
/// every region.
pub proof fn lemma_nationwide_observed_everywhere(r: Region, d: Date, h: Holiday)
    requires
        nationwide_seq().contains(h),
        holiday_md(h, d.year as int) == Some((d.month as int, d.day as int)),
    ensures
        r.spec_is_holiday(d),
{
    let i = choose |i: int| 0 <= i < nationwide_seq().len() && nationwide_seq()[i] == h;
    assert(holidays_seq(r)[regional_seq(r).len() + i] == h);
}

} // verus!
