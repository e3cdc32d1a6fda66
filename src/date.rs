//! Calendar dates as day numbers.

use chrono::Datelike;
use vstd::prelude::*;

verus! {

/// A calendar date, as its day number in the proleptic Gregorian calendar
/// counted from 0001-01-01, which is day 1. Dates compare by that number
/// and the day after a date has the next number.
#[derive(Clone, Copy, PartialEq, Eq, Structural, Debug)]
pub struct Date {
    pub day: i32,
}

/// The day number of the date `y-m-d`, or nothing where no such date exists
/// or it lies outside the supported years.
pub uninterp spec fn ce_day_of(y: i32, m: u32, d: u32) -> Option<int>;

/// Relies on chrono's `NaiveDate::from_ymd_opt`, which is `None` exactly for
/// dates that do not exist or lie outside its range, and on
/// `Datelike::num_days_from_ce`, which counts 0001-01-01 as day 1.
#[verifier::external_body]
fn day_number(y: i32, m: u32, d: u32) -> (r: Option<i32>)
    ensures
        r matches Some(n) ==> ce_day_of(y, m, d) == Some(n as int),
        r is None ==> ce_day_of(y, m, d) is None,
{
    match chrono::NaiveDate::from_ymd_opt(y, m, d) {
        Some(date) => Some(date.num_days_from_ce()),
        None => None,
    }
}

impl Date {
    /// The date with day number `day`.
    pub fn from_day(day: i32) -> (r: Date)
        ensures
            r.day == day,
    {
        Date { day }
    }

    /// The date `y-m-d`, where it exists.
    pub fn from_ymd(y: i32, m: u32, d: u32) -> (r: Option<Date>)
        ensures
            r matches Some(date) ==> ce_day_of(y, m, d) == Some(date.day as int),
            r is None ==> ce_day_of(y, m, d) is None,
    {
        match day_number(y, m, d) {
            Some(day) => Some(Date { day }),
            None => None,
        }
    }
}

} // verus!
