//! A plain proleptic-Gregorian calendar date and its arithmetic model.
//!
//! The mathematical model assigns every date a day number: day 0 is
//! 1 January of year 1, which was a Monday in the proleptic Gregorian
//! calendar. Weekdays are counted with Monday = 0 .. Sunday = 6.

use vstd::prelude::*;
use vstd::arithmetic::div_mod::lemma_fundamental_div_mod;
use vstd::arithmetic::div_mod::lemma_fundamental_div_mod_converse;
use vstd::arithmetic::div_mod::lemma_fundamental_div_mod_converse_mod;
use vstd::arithmetic::div_mod::lemma_mod_bound;
use vstd::arithmetic::div_mod::lemma_mod_multiples_vanish;
use vstd::arithmetic::div_mod::lemma_hoist_over_denominator;
use vstd::arithmetic::mul::lemma_mul_is_distributive_sub;

verus! {

/// Smallest year a `Date` can hold.
pub const MIN_YEAR: i32 = -9999;

/// Largest year a `Date` can hold.
pub const MAX_YEAR: i32 = 9999;

/// The year lies in the range a `Date` can hold.
pub open spec fn year_in_range(y: int) -> bool {
    MIN_YEAR as int <= y <= MAX_YEAR as int
}

/// A year is a leap year in the proleptic Gregorian calendar iff it is
/// divisible by 4, except century years, which must be divisible by 400.
pub open spec fn is_leap_year(y: int) -> bool {
    y % 4 == 0 && (y % 100 != 0 || y % 400 == 0)
}

/// Number of days in month `m` (1 = January .. 12 = December) of year `y`.
pub open spec fn days_in_month(y: int, m: int) -> int {
    if m == 2 {
        if is_leap_year(y) { 29 } else { 28 }
    } else if m == 4 || m == 6 || m == 9 || m == 11 {
        30
    } else {
        31
    }
}

/// Number of days in year `y`.
pub open spec fn days_in_year(y: int) -> int {
    if is_leap_year(y) { 366 } else { 365 }
}

/// Days in the months of year `y` strictly before month `m`.
pub open spec fn days_before_month(y: int, m: int) -> int {
    let leap: int = if is_leap_year(y) { 1 } else { 0 };
    if m <= 1 { 0 }
    else if m == 2 { 31 }
    else if m == 3 { 59 + leap }
    else if m == 4 { 90 + leap }
    else if m == 5 { 120 + leap }
    else if m == 6 { 151 + leap }
    else if m == 7 { 181 + leap }
    else if m == 8 { 212 + leap }
    else if m == 9 { 243 + leap }
    else if m == 10 { 273 + leap }
    else if m == 11 { 304 + leap }
    else { 334 + leap }
}

/// Day-of-year (1-based) of the date `y-m-d`.
pub open spec fn ordinal_of(y: int, m: int, d: int) -> int {
    days_before_month(y, m) + d
}

/// Days in all years strictly before year `y`, counted from day 0 =
/// 1 January of year 1 (negative for earlier years).
pub open spec fn days_before_year(y: int) -> int {
    365 * (y - 1) + (y - 1) / 4 - (y - 1) / 100 + (y - 1) / 400
}

/// Absolute day index of the date `y-m-d`: 1 January of year 1 is day 0.
pub open spec fn day_number_of(y: int, m: int, d: int) -> int {
    days_before_year(y) + ordinal_of(y, m, d) - 1
}

/// Weekday of the date `y-m-d`, with Monday = 0 .. Sunday = 6.
pub open spec fn weekday_of(y: int, m: int, d: int) -> int {
    day_number_of(y, m, d) % 7
}

/// `y-m-d` is a real calendar date within the supported year range.
pub open spec fn valid_date(y: int, m: int, d: int) -> bool {
    year_in_range(y) && 1 <= m <= 12 && 1 <= d <= days_in_month(y, m)
}

/// Month (1-based) of the day with day-of-year `n` in year `y`.
pub open spec fn month_of_ordinal(y: int, n: int) -> int {
    let leap: int = if is_leap_year(y) { 1 } else { 0 };
    if n <= 31 { 1 }
    else if n <= 59 + leap { 2 }
    else if n <= 90 + leap { 3 }
    else if n <= 120 + leap { 4 }
    else if n <= 151 + leap { 5 }
    else if n <= 181 + leap { 6 }
    else if n <= 212 + leap { 7 }
    else if n <= 243 + leap { 8 }
    else if n <= 273 + leap { 9 }
    else if n <= 304 + leap { 10 }
    else if n <= 334 + leap { 11 }
    else { 12 }
}

/// Day-of-month of the day with day-of-year `n` in year `y`.
pub open spec fn day_of_ordinal(y: int, n: int) -> int {
    n - days_before_month(y, month_of_ordinal(y, n))
}

/// Smallest day number a valid `Date` can have (1 January of `MIN_YEAR`).
pub open spec fn min_day_number() -> int {
    days_before_year(MIN_YEAR as int)
}

/// Largest day number a valid `Date` can have (31 December of `MAX_YEAR`).
pub open spec fn max_day_number() -> int {
    days_before_year(MAX_YEAR as int) + 364
}

/// A proleptic-Gregorian calendar date.
///
/// Use [`Date::new`] to construct one; it refuses calendar-invalid
/// combinations such as 30 February.
#[derive(Clone, Copy, Debug, PartialEq, Eq, Structural)]
pub struct Date {
    /// Year, between `MIN_YEAR` and `MAX_YEAR`.
    pub year: i32,
    /// Month, 1 = January .. 12 = December.
    pub month: u8,
    /// Day of month, 1-based.
    pub day: u8,
}

impl Date {
    /// The date is a real calendar date within the supported year range.
    pub open spec fn valid(self) -> bool {
        valid_date(self.year as int, self.month as int, self.day as int)
    }

    /// Absolute day index of this date (1 January of year 1 is day 0).
    pub open spec fn spec_day_number(self) -> int {
        day_number_of(self.year as int, self.month as int, self.day as int)
    }

    /// Builds a date, refusing calendar-invalid combinations.
    pub fn new(year: i32, month: u8, day: u8) -> (r: Option<Date>)
        ensures
            r is Some <==> valid_date(year as int, month as int, day as int),
            r matches Some(d) ==> d == (Date { year, month, day }),
    {
        if year < MIN_YEAR || year > MAX_YEAR {
            return None;
        }
        if month < 1 || month > 12 {
            return None;
        }
        if day < 1 || day > month_length(year, month) {
            return None;
        }
        Some(Date { year, month, day })
    }

    /// Day-of-year of this date, 1-based.
    pub fn ordinal(&self) -> (r: u16)
        requires
            self.valid(),
        ensures
            r as int == ordinal_of(self.year as int, self.month as int, self.day as int),
    {
        let leap: u16 = if leap_year(self.year) { 1 } else { 0 };
        let before: u16 = if self.month <= 1 { 0 }
            else if self.month == 2 { 31 }
            else if self.month == 3 { 59 + leap }
            else if self.month == 4 { 90 + leap }
            else if self.month == 5 { 120 + leap }
            else if self.month == 6 { 151 + leap }
            else if self.month == 7 { 181 + leap }
            else if self.month == 8 { 212 + leap }
            else if self.month == 9 { 243 + leap }
            else if self.month == 10 { 273 + leap }
            else if self.month == 11 { 304 + leap }
            else { 334 + leap };
        before + self.day as u16
    }

    /// Weekday of this date, Monday = 0 .. Sunday = 6.
    pub fn weekday(&self) -> (r: u8)
        requires
            self.valid(),
        ensures
            r as int == weekday_of(self.year as int, self.month as int, self.day as int),
    {
        // Shift by 12000 years, a multiple of the 400-year Gregorian cycle,
        // which holds a whole number of weeks; the arithmetic then stays
        // non-negative.
        let p: u64 = (self.year + 11999) as u64;
        proof {
            lemma_fundamental_div_mod(p as int, 4);
            lemma_mod_bound(p as int, 4);
            lemma_fundamental_div_mod(p as int, 100);
            lemma_mod_bound(p as int, 100);
            lemma_fundamental_div_mod(p as int, 400);
            lemma_mod_bound(p as int, 400);
            lemma_days_before_year_shift(self.year as int);
        }
        let shifted: u64 = 365 * p + p / 4 - p / 100 + p / 400;
        let dn: u64 = shifted + self.ordinal() as u64 - 1;
        proof {
            lemma_mod_multiples_vanish(626130, self.spec_day_number(), 7);
            lemma_mod_bound(self.spec_day_number(), 7);
            lemma_mod_bound(dn as int, 7);
        }
        (dn % 7) as u8
    }

    /// Builds the date of year `year` with the given 1-based day-of-year.
    pub fn from_ordinal(year: i32, ord: i32) -> (r: Date)
        requires
            year_in_range(year as int),
            1 <= ord <= days_in_year(year as int),
        ensures
            r.valid(),
            r.year == year,
            r.month as int == month_of_ordinal(year as int, ord as int),
            r.day as int == day_of_ordinal(year as int, ord as int),
            ordinal_of(r.year as int, r.month as int, r.day as int) == ord,
    {
        let leap: i32 = if leap_year(year) { 1 } else { 0 };
        let (month, before): (u8, i32) = if ord <= 31 { (1, 0) }
            else if ord <= 59 + leap { (2, 31) }
            else if ord <= 90 + leap { (3, 59 + leap) }
            else if ord <= 120 + leap { (4, 90 + leap) }
            else if ord <= 151 + leap { (5, 120 + leap) }
            else if ord <= 181 + leap { (6, 151 + leap) }
            else if ord <= 212 + leap { (7, 181 + leap) }
            else if ord <= 243 + leap { (8, 212 + leap) }
            else if ord <= 273 + leap { (9, 243 + leap) }
            else if ord <= 304 + leap { (10, 273 + leap) }
            else if ord <= 334 + leap { (11, 304 + leap) }
            else { (12, 334 + leap) };
        Date { year, month, day: (ord - before) as u8 }
    }

    /// Adds a signed number of days, returning `None` exactly when the
    /// result would leave the supported year range.
    pub fn checked_add_days(&self, offset: i32) -> (r: Option<Date>)
        requires
            self.valid(),
        ensures
            r is Some <==> min_day_number() <= self.spec_day_number() + offset <= max_day_number(),
            r matches Some(d) ==> d.valid() && d.spec_day_number() == self.spec_day_number() + offset,
    {
        let mut y: i32 = self.year;
        let mut t: i64 = self.ordinal() as i64 + offset as i64;
        while t < 1
            invariant
                year_in_range(y as int),
                days_before_year(y as int) + t - 1 == self.spec_day_number() + offset,
            decreases 366 - t,
        {
            if y == MIN_YEAR {
                proof {
                    lemma_days_before_year_bounds();
                }
                return None;
            }
            y = y - 1;
            proof {
                lemma_days_before_year_succ(y as int);
            }
            t = t + if leap_year(y) { 366 } else { 365 };
        }
        while t > 366
            invariant
                year_in_range(y as int),
                days_before_year(y as int) + t - 1 == self.spec_day_number() + offset,
                t >= 1,
            decreases t,
        {
            if y == MAX_YEAR {
                proof {
                    lemma_days_before_year_bounds();
                }
                return None;
            }
            let len: i64 = if leap_year(y) { 366 } else { 365 };
            proof {
                lemma_days_before_year_succ(y as int);
            }
            t = t - len;
            y = y + 1;
        }
        if t == 366 && !leap_year(y) {
            if y == MAX_YEAR {
                proof {
                    lemma_days_before_year_bounds();
                }
                return None;
            }
            proof {
                lemma_days_before_year_succ(y as int);
            }
            t = 1;
            y = y + 1;
        }
        proof {
            lemma_days_before_year_bounds();
            lemma_days_before_year_monotonic(MIN_YEAR as int, y as int);
            lemma_days_before_year_succ(y as int);
            lemma_days_before_year_monotonic(y as int + 1, MAX_YEAR as int + 1);
        }
        Some(Date::from_ordinal(y, t as i32))
    }
}

/// Whether `year` is a leap year.
pub fn leap_year(year: i32) -> (r: bool)
    requires
        year_in_range(year as int),
    ensures
        r == is_leap_year(year as int),
{
    proof {
        lemma_leap_year_shift(year as int);
    }
    // Shift by 12000, a multiple of 400, to keep the values non-negative.
    let z: u32 = (year + 12000) as u32;
    z % 4 == 0 && (z % 100 != 0 || z % 400 == 0)
}

/// Number of days in month `month` of year `year`.
pub fn month_length(year: i32, month: u8) -> (r: u8)
    requires
        year_in_range(year as int),
        1 <= month <= 12,
    ensures
        r as int == days_in_month(year as int, month as int),
{
    if month == 2 {
        if leap_year(year) { 29 } else { 28 }
    } else if month == 4 || month == 6 || month == 9 || month == 11 {
        30
    } else {
        31
    }
}

/// A valid date's day-of-year lies between 1 and its year's length.
pub proof fn lemma_ordinal_in_year(y: int, m: int, d: int)
    requires
        valid_date(y, m, d),
    ensures
        1 <= ordinal_of(y, m, d) <= days_in_year(y),
{
}

/// For positive `d`, stepping the dividend down by one lowers the quotient
/// exactly when `d` divides the dividend.
proof fn lemma_div_step(x: int, d: int)
    requires
        0 < d,
    ensures
        x / d == (x - 1) / d + (if x % d == 0 { 1int } else { 0 }),
{
    let q = x / d;
    let r = x % d;
    lemma_fundamental_div_mod(x, d);
    lemma_mod_bound(x, d);
    if r == 0 {
        lemma_mul_is_distributive_sub(d, q, 1);
        assert((q - 1) * d == d * (q - 1)) by (nonlinear_arith);
        assert(x - 1 == (q - 1) * d + (d - 1));
        lemma_fundamental_div_mod_converse(x - 1, d, q - 1, d - 1);
    } else {
        assert(q * d == d * q) by (nonlinear_arith);
        assert(x - 1 == q * d + (r - 1));
        lemma_fundamental_div_mod_converse(x - 1, d, q, r - 1);
    }
}

/// A multiple of 400 is a multiple of 100, and a multiple of 100 one of 4.
proof fn lemma_mod_400_implies(y: int)
    ensures
        y % 400 == 0 ==> y % 100 == 0,
        y % 100 == 0 ==> y % 4 == 0,
{
    if y % 400 == 0 {
        lemma_fundamental_div_mod(y, 400);
        let q = y / 400;
        assert((4 * q) * 100 == 400 * q) by (nonlinear_arith);
        lemma_fundamental_div_mod_converse_mod(y, 100, 4 * q, 0);
    }
    if y % 100 == 0 {
        lemma_fundamental_div_mod(y, 100);
        let q = y / 100;
        assert((25 * q) * 4 == 100 * q) by (nonlinear_arith);
        lemma_fundamental_div_mod_converse_mod(y, 4, 25 * q, 0);
    }
}

/// Counting the leap day of year `y` together with the days before it
/// turns the `y - 1` quotients into quotients of `y` itself.
pub proof fn lemma_days_before_year_leap_form(y: int)
    ensures
        days_before_year(y) + (if is_leap_year(y) { 1int } else { 0 })
            == 365 * (y - 1) + y / 4 - y / 100 + y / 400,
{
    lemma_div_step(y, 4);
    lemma_div_step(y, 100);
    lemma_div_step(y, 400);
    lemma_mod_400_implies(y);
}

/// One more year before the count adds exactly that year's length.
pub proof fn lemma_days_before_year_succ(y: int)
    ensures
        days_before_year(y + 1) == days_before_year(y) + days_in_year(y),
{
    lemma_div_step(y, 4);
    lemma_div_step(y, 100);
    lemma_div_step(y, 400);
    lemma_mod_400_implies(y);
}

/// `days_before_year` grows by at least 365 per year.
pub proof fn lemma_days_before_year_monotonic(y1: int, y2: int)
    requires
        y1 <= y2,
    ensures
        days_before_year(y1) + 365 * (y2 - y1) <= days_before_year(y2),
    decreases y2 - y1,
{
    if y1 < y2 {
        lemma_days_before_year_monotonic(y1, y2 - 1);
        lemma_days_before_year_succ(y2 - 1);
    }
}

/// Concrete values of the count at the ends of the supported range.
pub proof fn lemma_days_before_year_bounds()
    ensures
        days_before_year(MIN_YEAR as int) == -3652425,
        days_before_year(MAX_YEAR as int) == 3651694,
        days_before_year(MAX_YEAR as int + 1) == 3652059,
{
    lemma_fundamental_div_mod_converse(-10000, 4, -2500, 0);
    lemma_fundamental_div_mod_converse(-10000, 100, -100, 0);
    lemma_fundamental_div_mod_converse(-10000, 400, -25, 0);
    lemma_fundamental_div_mod_converse(9998, 4, 2499, 2);
    lemma_fundamental_div_mod_converse(9998, 100, 99, 98);
    lemma_fundamental_div_mod_converse(9998, 400, 24, 398);
    lemma_fundamental_div_mod_converse(9999, 4, 2499, 3);
    lemma_fundamental_div_mod_converse(9999, 100, 99, 99);
    lemma_fundamental_div_mod_converse(9999, 400, 24, 399);
}

/// Shifting a year by 12000 (a multiple of 400) keeps its leap-year status.
proof fn lemma_leap_year_shift(y: int)
    ensures
        is_leap_year(y + 12000) == is_leap_year(y),
{
    lemma_mod_multiples_vanish(3000, y, 4);
    lemma_mod_multiples_vanish(120, y, 100);
    lemma_mod_multiples_vanish(30, y, 400);
}

/// Shifting a year by 12000 adds 12000 years' worth of days, a whole
/// number of weeks (4382910 = 7 * 626130).
pub proof fn lemma_days_before_year_shift(y: int)
    ensures
        days_before_year(y + 12000) == days_before_year(y) + 4382910,
{
    lemma_hoist_over_denominator(y - 1, 3000, 4);
    lemma_hoist_over_denominator(y - 1, 120, 100);
    lemma_hoist_over_denominator(y - 1, 30, 400);
}

/// Law: the day number identifies a valid date completely; two valid
/// dates with equal day numbers are the same date.
pub proof fn lemma_day_number_injective(d1: Date, d2: Date)
    requires
        d1.valid(),
        d2.valid(),
        d1.spec_day_number() == d2.spec_day_number(),
    ensures
        d1 == d2,
{
    lemma_ordinal_in_year(d1.year as int, d1.month as int, d1.day as int);
    lemma_ordinal_in_year(d2.year as int, d2.month as int, d2.day as int);
    if d1.year < d2.year {
        lemma_days_before_year_succ(d1.year as int);
        lemma_days_before_year_monotonic(d1.year as int + 1, d2.year as int);
    }
    if d2.year < d1.year {
        lemma_days_before_year_succ(d2.year as int);
        lemma_days_before_year_monotonic(d2.year as int + 1, d1.year as int);
    }
}

} // verus!
