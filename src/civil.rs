use crate::julian::{cjdn_of, is_gregorian_date};
use crate::names::{month_name_en, weekday_name_en, weekday_of};
use vstd::prelude::*;

verus! {

/// Relies on chrono's `NaiveDate::from_ymd_opt`, which returns a date exactly
/// when the month and the day exist in that year of the proleptic Gregorian
/// calendar (for years well inside chrono's range).
#[verifier::external_body]
pub(crate) fn gregorian_date_exists(year: i32, month: u32, day: u32) -> (r: bool)
    requires
        1 <= year <= 9999,
    ensures
        r == is_gregorian_date(year as int, month as int, day as int),
{
    chrono::NaiveDate::from_ymd_opt(year, month, day).is_some()
}

/// Relies on chrono's `NaiveDate::format` with `%A`: the English name of the
/// day of the week, which advances by one with each day.
#[verifier::external_body]
pub(crate) fn english_weekday_name(year: i32, month: u32, day: u32) -> (r: String)
    requires
        1901 <= year <= 2099,
        is_gregorian_date(year as int, month as int, day as int),
    ensures
        r@ == weekday_name_en(weekday_of(cjdn_of(year as int, month as int, day as int))),
{
    match chrono::NaiveDate::from_ymd_opt(year, month, day) {
        Some(date) => date.format("%A").to_string(),
        None => String::new(),
    }
}

/// Relies on chrono's `NaiveDate::format` with `%B`: the English name of the month.
#[verifier::external_body]
pub(crate) fn english_month_name(year: i32, month: u32, day: u32) -> (r: String)
    requires
        1 <= year <= 9999,
        is_gregorian_date(year as int, month as int, day as int),
    ensures
        r@ == month_name_en(month as int),
{
    match chrono::NaiveDate::from_ymd_opt(year, month, day) {
        Some(date) => date.format("%B").to_string(),
        None => String::new(),
    }
}

} // verus!
