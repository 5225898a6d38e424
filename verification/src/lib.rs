//! German holiday calculations on the proleptic Gregorian calendar.
//!
//! The crate determines, for a calendar date and a German region, whether
//! that date is a holiday there, and enumerates the holidays a region
//! observes in a year. Dates are plain year/month/day values of the
//! crate's own [`Date`] type.

mod computus;
mod date;
mod holidays;
mod regions;

use vstd::prelude::*;

pub use crate::computus::computus_gregorian;
pub use crate::computus::MIN_COMPUTUS_YEAR;
pub use crate::computus::MAX_COMPUTUS_YEAR;
pub use crate::date::Date;
pub use crate::holidays::Holiday;
pub use crate::regions::Region;
pub use crate::regions::nation_wide_holidays;
pub use crate::date::MIN_YEAR;
pub use crate::date::MAX_YEAR;

verus! {

/// An extension that lets a date be asked directly whether it is a
/// holiday in a region.
pub trait HolidayExt {
    /// The date this value stands for.
    spec fn spec_date(&self) -> Date;

    /// Checks whether this day is a holiday in the specified region.
    fn is_holiday(&self, region: Region) -> (r: bool)
        ensures
            r == region.spec_is_holiday(self.spec_date()),
    ;
}

impl HolidayExt for Date {
    open spec fn spec_date(&self) -> Date {
        *self
    }

    fn is_holiday(&self, region: Region) -> (r: bool)
    {
        region.is_holiday(*self)
    }
}

} // verus!
