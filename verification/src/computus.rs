//! The Computus: the date of Easter Sunday in the Gregorian calendar.
//!
//! The algorithm is the classical anonymous Gregorian computus (the
//! Meeus/Jones/Butcher form), a fixed sequence of integer quotients and
//! remainders. Its intermediate values are mirrored here as spec
//! functions named after the algorithm's traditional variables, so the
//! lemmas below can speak about them: the computed date always lies
//! between 22 March and 25 April, and is always a Sunday.

use vstd::prelude::*;
use vstd::arithmetic::div_mod::lemma_fundamental_div_mod;
use vstd::arithmetic::div_mod::lemma_fundamental_div_mod_converse;
use vstd::arithmetic::div_mod::lemma_fundamental_div_mod_converse_mod;
use vstd::arithmetic::div_mod::lemma_mod_bound;
use crate::date::Date;
use crate::date::valid_date;
use crate::date::is_leap_year;
use crate::date::ordinal_of;
use crate::date::day_number_of;
use crate::date::weekday_of;
use crate::date::lemma_days_before_year_leap_form;

verus! {

/// First year for which the Gregorian Easter rule is defined.
pub const MIN_COMPUTUS_YEAR: i32 = 1583;

/// Last year for which the computation is defined.
pub const MAX_COMPUTUS_YEAR: i32 = 9999;

/// Easter Sunday can be computed for the year.
pub open spec fn computable_year(y: int) -> bool {
    MIN_COMPUTUS_YEAR as int <= y <= MAX_COMPUTUS_YEAR as int
}

/// Position of the year in the 19-year Metonic cycle.
pub open spec fn comp_a(y: int) -> int {
    y % 19
}

/// Century number.
pub open spec fn comp_b(y: int) -> int {
    y / 100
}

/// Year within the century.
pub open spec fn comp_c(y: int) -> int {
    y % 100
}

/// Leap-century quotient.
pub open spec fn comp_d(y: int) -> int {
    comp_b(y) / 4
}

/// Leap-century remainder.
pub open spec fn comp_e(y: int) -> int {
    comp_b(y) % 4
}

/// Correction cycle for the lunar orbit.
pub open spec fn comp_f(y: int) -> int {
    (comp_b(y) + 8) / 25
}

/// Proemptosis correction.
pub open spec fn comp_g(y: int) -> int {
    (comp_b(y) - comp_f(y) + 1) / 3
}

/// Epact: days from 21 March to the paschal full moon, before correction.
pub open spec fn comp_h(y: int) -> int {
    (19 * comp_a(y) + comp_b(y) - comp_d(y) - comp_g(y) + 15) % 30
}

/// Leap-year quotient within the century.
pub open spec fn comp_i(y: int) -> int {
    comp_c(y) / 4
}

/// Leap-year remainder within the century.
pub open spec fn comp_k(y: int) -> int {
    comp_c(y) % 4
}

/// Days from the paschal full moon to the next Sunday.
pub open spec fn comp_l(y: int) -> int {
    (32 + 2 * comp_e(y) + 2 * comp_i(y) - comp_h(y) - comp_k(y)) % 7
}

/// Correction for late full moons in long Metonic years.
pub open spec fn comp_m(y: int) -> int {
    (comp_a(y) + 11 * comp_h(y) + 22 * comp_l(y)) / 451
}

/// The combined offset whose quotient and remainder by 31 give the
/// month and day of Easter Sunday.
pub open spec fn easter_total(y: int) -> int {
    comp_h(y) + comp_l(y) - 7 * comp_m(y) + 114
}

/// Month of Easter Sunday of year `y` (March or April).
pub open spec fn easter_month(y: int) -> int {
    easter_total(y) / 31
}

/// Day of month of Easter Sunday of year `y`.
pub open spec fn easter_day(y: int) -> int {
    easter_total(y) % 31 + 1
}

/// Bounds of the computus intermediates over the computable years.
proof fn lemma_computus_bounds(y: int)
    requires
        computable_year(y),
    ensures
        0 <= comp_a(y) <= 18,
        15 <= comp_b(y) <= 99,
        0 <= comp_c(y) <= 99,
        3 <= comp_d(y) <= 24,
        0 <= comp_e(y) <= 3,
        0 <= comp_f(y) <= 4,
        4 <= comp_g(y) <= 33,
        0 <= comp_h(y) <= 29,
        0 <= comp_i(y) <= 24,
        0 <= comp_k(y) <= 3,
        0 <= comp_l(y) <= 6,
        0 <= comp_m(y) <= 1,
        comp_f(y) <= comp_b(y),
        comp_d(y) <= comp_b(y),
        comp_g(y) <= comp_b(y) - comp_d(y),
        7 * comp_m(y) <= comp_h(y) + comp_l(y),
        114 <= easter_total(y) <= 148,
{
    lemma_fundamental_div_mod(y, 19);
    lemma_mod_bound(y, 19);
    lemma_fundamental_div_mod(y, 100);
    lemma_mod_bound(y, 100);
    lemma_fundamental_div_mod(comp_b(y), 4);
    lemma_mod_bound(comp_b(y), 4);
    lemma_fundamental_div_mod(comp_b(y) + 8, 25);
    lemma_mod_bound(comp_b(y) + 8, 25);
    lemma_fundamental_div_mod(comp_b(y) - comp_f(y) + 1, 3);
    lemma_mod_bound(comp_b(y) - comp_f(y) + 1, 3);
    lemma_mod_bound(19 * comp_a(y) + comp_b(y) - comp_d(y) - comp_g(y) + 15, 30);
    lemma_fundamental_div_mod(comp_c(y), 4);
    lemma_mod_bound(comp_c(y), 4);
    lemma_mod_bound(32 + 2 * comp_e(y) + 2 * comp_i(y) - comp_h(y) - comp_k(y), 7);
    lemma_fundamental_div_mod(comp_a(y) + 11 * comp_h(y) + 22 * comp_l(y), 451);
    lemma_mod_bound(comp_a(y) + 11 * comp_h(y) + 22 * comp_l(y), 451);
    assert(7 * comp_m(y) <= comp_h(y) + comp_l(y) && easter_total(y) <= 148) by {
        if comp_m(y) == 1 {
            assert(comp_a(y) + 11 * comp_h(y) + 22 * comp_l(y) >= 451);
        }
    }
}

/// Law: for every computable year, Easter Sunday is a real calendar
/// date between 22 March and 25 April; its day-of-year is the combined
/// offset shifted by the leap day.
pub proof fn lemma_easter_md(y: int)
    requires
        computable_year(y),
    ensures
        (easter_month(y) == 3 && 22 <= easter_day(y) <= 31)
            || (easter_month(y) == 4 && 1 <= easter_day(y) <= 25),
        valid_date(y, easter_month(y), easter_day(y)),
        ordinal_of(y, easter_month(y), easter_day(y))
            == easter_total(y) - 33 + (if is_leap_year(y) { 1int } else { 0 }),
        81 <= ordinal_of(y, easter_month(y), easter_day(y)) <= 116,
{
    lemma_computus_bounds(y);
    let t = easter_total(y);
    if t <= 123 {
        lemma_fundamental_div_mod_converse(t, 31, 3, t - 93);
    } else {
        lemma_fundamental_div_mod_converse(t, 31, 4, t - 124);
    }
}

/// Law: for every computable year, Easter Sunday falls on a Sunday.
pub proof fn lemma_easter_is_sunday(y: int)
    requires
        computable_year(y),
    ensures
        weekday_of(y, easter_month(y), easter_day(y)) == 6,
{
    lemma_computus_bounds(y);
    lemma_easter_md(y);
    lemma_days_before_year_leap_form(y);
    let b = comp_b(y);
    let c = comp_c(y);
    let d = comp_d(y);
    let e = comp_e(y);
    let h = comp_h(y);
    let i = comp_i(y);
    let k = comp_k(y);
    let l = comp_l(y);
    let m = comp_m(y);
    lemma_fundamental_div_mod(y, 100);
    lemma_mod_bound(y, 100);
    lemma_fundamental_div_mod(b, 4);
    lemma_mod_bound(b, 4);
    lemma_fundamental_div_mod(c, 4);
    lemma_mod_bound(c, 4);
    // y == 400 * d + (100 * e + 4 * i + k), so y / 4 == 25 * b + i and
    // y / 400 == d.
    lemma_fundamental_div_mod_converse(y, 4, 25 * b + i, k);
    lemma_fundamental_div_mod_converse(y, 400, d, 100 * e + 4 * i + k);
    // Name the quotient hidden in the definition of `comp_l`.
    lemma_fundamental_div_mod(32 + 2 * e + 2 * i - h - k, 7);
    let ql = (32 + 2 * e + 2 * i - h - k) / 7;
    let n = day_number_of(y, easter_month(y), easter_day(y));
    assert(n == 365 * (y - 1) + y / 4 - y / 100 + y / 400 + easter_total(y) - 34);
    // Everything that is not a multiple of 7 cancels.
    let q = 20871 * d + 5218 * e + 209 * i + 52 * k - 37 - ql - m;
    assert(n == q * 7 + 6);
    lemma_fundamental_div_mod_converse_mod(n, 7, q, 6);
}

/// Easter Sunday of the given year, or `None` when the year lies
/// outside the range for which the Gregorian rule is defined.
pub fn computus_gregorian(year: i32) -> (r: Option<Date>)
    ensures
        computable_year(year as int) ==> (r matches Some(d) && d.valid() && d.year == year
            && d.month as int == easter_month(year as int)
            && d.day as int == easter_day(year as int)),
        !computable_year(year as int) ==> r is None,
{
    if year < MIN_COMPUTUS_YEAR || year > MAX_COMPUTUS_YEAR {
        return None;
    }
    proof {
        lemma_computus_bounds(year as int);
        lemma_easter_md(year as int);
    }
    let y: u32 = year as u32;
    let aa: u32 = y % 19;
    let bb: u32 = y / 100;
    let cc: u32 = y % 100;
    let dd: u32 = bb / 4;
    let ee: u32 = bb % 4;
    let ff: u32 = (bb + 8) / 25;
    let gg: u32 = (bb - ff + 1) / 3;
    let hh: u32 = (19 * aa + bb - dd - gg + 15) % 30;
    let ii: u32 = cc / 4;
    let kk: u32 = cc % 4;
    let ll: u32 = (32 + 2 * ee + 2 * ii - hh - kk) % 7;
    let mm: u32 = (aa + 11 * hh + 22 * ll) / 451;
    let total: u32 = hh + ll - 7 * mm + 114;
    let month: u32 = total / 31;
    let day: u32 = total % 31 + 1;
    Some(Date { year, month: month as u8, day: day as u8 })
}

} // verus!
